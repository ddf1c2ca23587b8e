//! The type model and signature decoder: compact one-character-prefixed
//! signatures are parsed into `Type` values, and every `Type` resolves to a
//! fixed in-memory byte width.

use vstd::prelude::*;
use vstd::string::StrSliceExecFns;
use crate::REFERENCE_WIDTH;

verus! {

/// A decoded field type: the closed set of primitive widths plus references
/// to named object types and (arbitrarily nested) array types.
#[derive(Debug, PartialEq)]
pub enum Type {
    Byte,
    Short,
    Int,
    Long,
    Float,
    Double,
    Bool,
    Char,
    Object(String),
    Array(Box<Type>),
}

/// The mathematical model of a decoded type: identical in shape to `Type`,
/// but with object names as character sequences so that contracts can speak
/// of them directly.
pub enum SpecType {
    Byte,
    Short,
    Int,
    Long,
    Float,
    Double,
    Bool,
    Char,
    Object(Seq<char>),
    Array(Box<SpecType>),
}

impl View for Type {
    type V = SpecType;

    open spec fn view(&self) -> SpecType
        decreases self,
    {
        match self {
            Type::Byte => SpecType::Byte,
            Type::Short => SpecType::Short,
            Type::Int => SpecType::Int,
            Type::Long => SpecType::Long,
            Type::Float => SpecType::Float,
            Type::Double => SpecType::Double,
            Type::Bool => SpecType::Bool,
            Type::Char => SpecType::Char,
            Type::Object(name) => SpecType::Object(name@),
            Type::Array(elem) => SpecType::Array(Box::new((**elem).view())),
        }
    }
}

/// Byte width of a value of type `t`: fixed widths for the primitives
/// (two-byte chars), and the platform reference width for both objects and
/// arrays, which are represented uniformly as references.
pub open spec fn spec_size(t: SpecType) -> nat {
    match t {
        SpecType::Byte => 1,
        SpecType::Short => 2,
        SpecType::Int => 4,
        SpecType::Long => 8,
        SpecType::Float => 4,
        SpecType::Double => 8,
        SpecType::Bool => 1,
        SpecType::Char => 2,
        SpecType::Object(_) => REFERENCE_WIDTH as nat,
        SpecType::Array(_) => REFERENCE_WIDTH as nat,
    }
}

/// Raised when a signature string is empty, starts with an unknown tag
/// character, or is an object signature whose terminating `;` is missing.
#[derive(Debug)]
pub struct FieldInfoParsingError;

/// What a signature decodes to, if anything: the single mathematical
/// definition of the signature grammar. A signature is one tag character,
/// possibly followed by more input; primitives are a bare tag, `L<name>;`
/// names an object type (the name runs to the first `;`), and `[` wraps the
/// decoding of the rest in one array layer. Input past the consumed prefix
/// is ignored, and an empty, unknown-tagged, or unterminated signature
/// decodes to nothing.
pub open spec fn spec_decode(s: Seq<char>) -> Option<SpecType>
    decreases s.len(),
{
    if s.len() == 0 {
        None
    } else if s[0] == 'B' {
        Some(SpecType::Byte)
    } else if s[0] == 'S' {
        Some(SpecType::Short)
    } else if s[0] == 'I' {
        Some(SpecType::Int)
    } else if s[0] == 'J' {
        Some(SpecType::Long)
    } else if s[0] == 'F' {
        Some(SpecType::Float)
    } else if s[0] == 'D' {
        Some(SpecType::Double)
    } else if s[0] == 'Z' {
        Some(SpecType::Bool)
    } else if s[0] == 'C' {
        Some(SpecType::Char)
    } else if s[0] == 'L' {
        match s.skip(1).index_of_first(';') {
            Some(j) => Some(SpecType::Object(s.skip(1).take(j))),
            None => None,
        }
    } else if s[0] == '[' {
        match spec_decode(s.skip(1)) {
            Some(t) => Some(SpecType::Array(Box::new(t))),
            None => None,
        }
    } else {
        None
    }
}

impl Type {
    /// Parses a compact type signature. Succeeds exactly when the signature
    /// is well formed under the grammar, returning the decoded type;
    /// rejects empty input, unknown tag characters, and object signatures
    /// with no terminating `;` (the name is never silently taken from an
    /// unterminated remainder). Pure: equal signatures decode equally.
    pub fn decode(signature: &str) -> (r: Result<Type, FieldInfoParsingError>)
        ensures
            match r {
                Ok(t) => spec_decode(signature@) == Some(t@),
                Err(_) => spec_decode(signature@) is None,
            },
        decreases signature@.len(),
    {
        let n = signature.unicode_len();
        if n == 0 {
            return Err(FieldInfoParsingError);
        }
        let tag = signature.get_char(0);
        if tag == 'B' {
            Ok(Type::Byte)
        } else if tag == 'S' {
            Ok(Type::Short)
        } else if tag == 'I' {
            Ok(Type::Int)
        } else if tag == 'J' {
            Ok(Type::Long)
        } else if tag == 'F' {
            Ok(Type::Float)
        } else if tag == 'D' {
            Ok(Type::Double)
        } else if tag == 'Z' {
            Ok(Type::Bool)
        } else if tag == 'C' {
            Ok(Type::Char)
        } else if tag == 'L' {
            let mut i: usize = 1;
            while i < n
                invariant
                    1 <= i <= n,
                    n == signature@.len(),
                    signature@[0] == 'L',
                    forall|j: int| 1 <= j < i ==> signature@[j] != ';',
                decreases n - i,
            {
                if signature.get_char(i) == ';' {
                    let name = signature.substring_char(1, i).to_owned();
                    proof {
                        let rest = signature@.skip(1);
                        rest.index_of_first_ensures(';');
                        assert(rest.contains(';')) by {
                            assert(rest[i - 1] == ';');
                        }
                        let j = rest.index_of_first(';')->Some_0;
                        assert(j == i - 1) by {
                            if j < i - 1 {
                                assert(rest[j] == ';');
                                assert(signature@[j + 1] != ';');
                            }
                            if j > i - 1 {
                                assert(rest[i - 1] != ';');
                            }
                        }
                        assert(name@ =~= rest.take(i - 1));
                    }
                    return Ok(Type::Object(name));
                }
                i += 1;
            }
            proof {
                let rest = signature@.skip(1);
                rest.index_of_first_ensures(';');
                assert(!rest.contains(';')) by {
                    assert(forall|k: int| 0 <= k < rest.len() ==> rest[k] != ';');
                }
            }
            Err(FieldInfoParsingError)
        } else if tag == '[' {
            let rest = signature.substring_char(1, n);
            match Type::decode(rest) {
                Ok(t) => Ok(Type::Array(Box::new(t))),
                Err(e) => Err(e),
            }
        } else {
            Err(FieldInfoParsingError)
        }
    }

    /// In-memory byte width of a value of this type; total and positive.
    pub fn size(&self) -> (n: usize)
        ensures
            n == spec_size(self@),
            n >= 1,
    {
        match self {
            Type::Byte => 1,
            Type::Short => 2,
            Type::Int => 4,
            Type::Long => 8,
            Type::Float => 4,
            Type::Double => 8,
            Type::Bool => 1,
            Type::Char => 2,
            Type::Object(_) => REFERENCE_WIDTH,
            Type::Array(_) => REFERENCE_WIDTH,
        }
    }
}

/// One field of a class layout: its decoded type paired with the byte
/// offset the host declared for it. The offset is authoritative host data;
/// this core stores it verbatim and never recomputes or validates it
/// against field sizes.
#[derive(Debug, PartialEq)]
pub struct Field {
    pub tp: Type,
    pub offset: usize,
}

impl Field {
    /// Builds a field from one host-supplied descriptor: decodes the
    /// signature and keeps the declared offset verbatim. Fails exactly when
    /// the signature is malformed.
    pub fn from_descriptor(signature: &str, offset: usize) -> (r: Result<Field, FieldInfoParsingError>)
        ensures
            match r {
                Ok(f) => spec_decode(signature@) == Some(f.tp@) && f.offset == offset,
                Err(_) => spec_decode(signature@) is None,
            },
    {
        match Type::decode(signature) {
            Ok(tp) => Ok(Field { tp, offset }),
            Err(e) => Err(e),
        }
    }
}

/// One raw field descriptor exactly as the host hands it over: a declared
/// name, a compact type signature, and a byte offset. The name is accepted
/// but not retained in the assembled layout.
#[derive(Debug)]
pub struct FieldRepr {
    pub name: String,
    pub signature: String,
    pub offset: usize,
}

/// Raised when a host-supplied class descriptor cannot be converted into a
/// layout: names the first field whose signature failed to decode, and
/// wraps the parse failure.
#[derive(Debug)]
pub enum ConversionError {
    Field { index: usize, cause: FieldInfoParsingError },
}

/// The assembled layout of one object kind: the host-declared instance and
/// header sizes, and its fields in the host's declaration order. Immutable
/// once built; shared read-only across allocation calls.
#[derive(Debug)]
pub struct Class {
    pub instance_size: usize,
    pub header_size: usize,
    pub fields: Vec<Field>,
}

impl Class {
    /// The layout invariant: an instance has room for at least one byte,
    /// and its header lies within it.
    pub open spec fn wf(&self) -> bool {
        0 < self.instance_size && self.header_size <= self.instance_size
    }

    /// Assembles a layout from host descriptor data: decodes every field
    /// signature in declaration order, preserving declared offsets
    /// verbatim. Succeeds exactly when every signature is well formed;
    /// stops at the first malformed field and reports its position, never
    /// building a partial layout.
    pub fn build_layout(
        instance_size: usize,
        header_size: usize,
        descriptors: &Vec<FieldRepr>,
    ) -> (r: Result<Class, ConversionError>)
        ensures
            match r {
                Ok(c) => {
                    &&& c.instance_size == instance_size
                    &&& c.header_size == header_size
                    &&& c.fields@.len() == descriptors@.len()
                    &&& forall|k: int|
                        0 <= k < descriptors@.len() ==> #[trigger] spec_decode(
                            descriptors@[k].signature@,
                        ) == Some(c.fields@[k].tp@) && c.fields@[k].offset == descriptors@[k].offset
                },
                Err(e) => {
                    &&& e matches ConversionError::Field { index, cause: _ }
                    &&& index < descriptors@.len()
                    &&& spec_decode(descriptors@[index as int].signature@) is None
                    &&& forall|k: int|
                        0 <= k < index ==> #[trigger] spec_decode(descriptors@[k].signature@) is Some
                },
            },
    {
        let mut fields: Vec<Field> = Vec::new();
        let mut i: usize = 0;
        while i < descriptors.len()
            invariant
                i <= descriptors@.len(),
                fields@.len() == i,
                forall|k: int|
                    0 <= k < i ==> #[trigger] spec_decode(descriptors@[k].signature@) == Some(
                        fields@[k].tp@,
                    ) && fields@[k].offset == descriptors@[k].offset,
            decreases descriptors@.len() - i,
        {
            let d = &descriptors[i];
            match Field::from_descriptor(d.signature.as_str(), d.offset) {
                Ok(f) => fields.push(f),
                Err(cause) => {
                    return Err(ConversionError::Field { index: i, cause });
                },
            }
            i += 1;
        }
        Ok(Class { instance_size, header_size, fields })
    }
}

/// Decoding a bare primitive tag yields that primitive, and its size is the
/// documented fixed width.
pub proof fn lemma_primitive_tags()
    ensures
        spec_decode(seq!['B']) == Some(SpecType::Byte) && spec_size(SpecType::Byte) == 1,
        spec_decode(seq!['S']) == Some(SpecType::Short) && spec_size(SpecType::Short) == 2,
        spec_decode(seq!['I']) == Some(SpecType::Int) && spec_size(SpecType::Int) == 4,
        spec_decode(seq!['J']) == Some(SpecType::Long) && spec_size(SpecType::Long) == 8,
        spec_decode(seq!['F']) == Some(SpecType::Float) && spec_size(SpecType::Float) == 4,
        spec_decode(seq!['D']) == Some(SpecType::Double) && spec_size(SpecType::Double) == 8,
        spec_decode(seq!['Z']) == Some(SpecType::Bool) && spec_size(SpecType::Bool) == 1,
        spec_decode(seq!['C']) == Some(SpecType::Char) && spec_size(SpecType::Char) == 2,
{
}

/// An object signature decodes to exactly the name standing between the
/// `L` tag and the first `;`: `j` here is the position of that first `;`.
pub proof fn lemma_object_signature(s: Seq<char>, j: int)
    requires
        s.len() >= 1,
        s[0] == 'L',
        1 <= j < s.len(),
        s[j] == ';',
        forall|k: int| 1 <= k < j ==> s[k] != ';',
    ensures
        spec_decode(s) == Some(SpecType::Object(s.subrange(1, j))),
{
    let rest = s.skip(1);
    rest.index_of_first_ensures(';');
    assert(rest.contains(';')) by {
        assert(rest[j - 1] == ';');
    }
    let f = rest.index_of_first(';')->Some_0;
    assert(f == j - 1) by {
        if f < j - 1 {
            assert(rest[f] == ';');
            assert(s[f + 1] != ';');
        }
        if f > j - 1 {
            assert(rest[j - 1] != ';');
        }
    }
    assert(rest.take(j - 1) =~= s.subrange(1, j));
}

/// An object signature with no terminating `;` decodes to nothing: the name
/// is never silently taken from the unterminated remainder.
pub proof fn lemma_unterminated_object(s: Seq<char>)
    requires
        s.len() >= 1,
        s[0] == 'L',
        forall|k: int| 1 <= k < s.len() ==> s[k] != ';',
    ensures
        spec_decode(s) is None,
{
    let rest = s.skip(1);
    rest.index_of_first_ensures(';');
    assert(!rest.contains(';')) by {
        assert(forall|k: int| 0 <= k < rest.len() ==> rest[k] != ';');
    }
}

/// `n` array wrappers around a base type.
pub open spec fn nested_array(n: nat, base: SpecType) -> SpecType
    decreases n,
{
    if n == 0 {
        base
    } else {
        SpecType::Array(Box::new(nested_array((n - 1) as nat, base)))
    }
}

/// A signature of `n` array tags before the integer tag decodes to `n`
/// nested array wrappers around the integer type, for every `n`; as soon as
/// one wrapper is present the whole is a reference of the fixed reference
/// width, while the bare integer keeps its own width.
pub proof fn lemma_nested_array_decode(n: nat)
    ensures
        spec_decode(Seq::new(n, |k: int| '[').add(seq!['I'])) == Some(
            nested_array(n, SpecType::Int),
        ),
        n >= 1 ==> spec_size(nested_array(n, SpecType::Int)) == REFERENCE_WIDTH,
        spec_size(nested_array(0, SpecType::Int)) == 4,
    decreases n,
{
    let s = Seq::new(n, |k: int| '[').add(seq!['I']);
    if n == 0 {
        assert(s =~= seq!['I']);
    } else {
        lemma_nested_array_decode((n - 1) as nat);
        let s1 = Seq::new((n - 1) as nat, |k: int| '[').add(seq!['I']);
        assert(s[0] == '[');
        assert(s.skip(1) =~= s1);
    }
}

} // verus!
