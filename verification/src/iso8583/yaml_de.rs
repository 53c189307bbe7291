//! This module contains the declarative description of a dialect, as a
//! loader reads it, and its conversion into a `Spec`.
use crate::iso8583::bitmap::BmpField;
use crate::iso8583::field::Encoding;
use crate::iso8583::field::Field;
use crate::iso8583::field::FixedField;
use crate::iso8583::field::VarField;
use crate::iso8583::iso_spec::MessageSegment;
use crate::iso8583::iso_spec::Spec;
use crate::iso8583::ErrorKind;
use crate::iso8583::Failure;
use crate::iso8583::IsoError;
use vstd::prelude::*;
use vstd::string::StringExecFns;

verus! {

/// A field as a dialect file describes it.
#[derive(Debug)]
pub struct YField {
    pub name: String,
    pub id: u32,
    pub len: u32,
    /// One of "Fixed", "Variable" and "Bitmapped".
    pub field_type: String,
    pub len_encoding: Option<Encoding>,
    pub data_encoding: Encoding,
    pub position: Option<u32>,
    pub children: Option<Vec<YField>>,
}

/// The position written, or 0.
pub open spec fn position_or_zero(p: Option<u32>) -> u32 {
    match p {
        Some(v) => v,
        None => 0,
    }
}

/// The children written, or none.
pub open spec fn children_of(c: Option<Vec<YField>>) -> Seq<YField> {
    match c {
        Some(v) => v@,
        None => Seq::<YField>::empty(),
    }
}

/// Whether each of `ys` describes the field of `fs` at its place.
pub open spec fn describe_all(ys: Seq<YField>, fs: Seq<Field>) -> bool
    decreases ys,
{
    &&& ys.len() == fs.len()
    &&& forall|i: int| 0 <= i < ys.len() ==> (#[trigger] ys[i]).describes(fs[i])
}

/// Why the descriptions from `i` on cannot be converted, if so: the first reason met.
pub open spec fn first_error(ys: Seq<YField>, i: int) -> Option<Failure>
    decreases ys, ys.len() - i,
{
    if i < 0 || i >= ys.len() {
        None
    } else {
        match ys[i].conversion_error() {
            Some(f) => Some(f),
            None => first_error(ys, i + 1),
        }
    }
}

impl YField {
    /// Whether this description and the field `f` say the same.
    pub open spec fn describes(&self, f: Field) -> bool
        decreases self,
    {
        if self.field_type@ == "Fixed"@ {
            &&& f matches Field::Fixed(x)
            &&& x.name@ == self.name@
            &&& x.id == self.id
            &&& x.len == self.len
            &&& x.encoding == self.data_encoding
            &&& x.position == position_or_zero(self.position)
        } else if self.field_type@ == "Variable"@ {
            &&& f matches Field::Variable(x)
            &&& x.name@ == self.name@
            &&& x.id == self.id
            &&& x.len == self.len
            &&& self.len_encoding == Some(x.len_encoding)
            &&& x.encoding == self.data_encoding
            &&& x.position == position_or_zero(self.position)
        } else if self.field_type@ == "Bitmapped"@ {
            &&& f matches Field::Bitmapped(b)
            &&& b.name@ == self.name@
            &&& b.id == self.id
            &&& b.encoding == self.data_encoding
            &&& match self.children {
                Some(v) => describe_all(v@, b.children@),
                None => b.children@.len() == 0,
            }
        } else {
            false
        }
    }

    /// Why this description cannot be converted, if so: a type that is none
    /// of the three, a variable field without an encoding for its length
    /// indicator, or a child that cannot be converted.
    pub open spec fn conversion_error(&self) -> Option<Failure>
        decreases self,
    {
        if self.field_type@ == "Fixed"@ {
            None
        } else if self.field_type@ == "Variable"@ {
            if self.len_encoding is None {
                Some(
                    Failure { kind: ErrorKind::Unsupported, subject: self.name@, position: 0 },
                )
            } else {
                None
            }
        } else if self.field_type@ == "Bitmapped"@ {
            match self.children {
                Some(v) => first_error(v@, 0),
                None => None,
            }
        } else {
            Some(Failure { kind: ErrorKind::Unsupported, subject: self.field_type@, position: 0 })
        }
    }

    /// The field that this description stands for.
    pub fn into(&self) -> (r: Result<Field, IsoError>)
        ensures
            match self.conversion_error() {
                Some(f) => r is Err && r->Err_0@ == f,
                None => r is Ok && self.describes(r->Ok_0),
            },
        decreases self,
    {
        let position = match self.position {
            Some(p) => p,
            None => 0,
        };
        if self.field_type == String::from_str("Fixed") {
            Ok(
                Field::Fixed(
                    FixedField {
                        name: self.name.clone(),
                        id: self.id,
                        len: self.len,
                        encoding: self.data_encoding,
                        position,
                    },
                ),
            )
        } else if self.field_type == String::from_str("Variable") {
            match self.len_encoding {
                Some(len_encoding) => Ok(
                    Field::Variable(
                        VarField {
                            name: self.name.clone(),
                            id: self.id,
                            len: self.len,
                            len_encoding,
                            encoding: self.data_encoding,
                            position,
                        },
                    ),
                ),
                None => Err(
                    IsoError {
                        kind: ErrorKind::Unsupported,
                        msg: self.name.clone(),
                        position: 0,
                    },
                ),
            }
        } else if self.field_type == String::from_str("Bitmapped") {
            let children = match &self.children {
                Some(ychildren) => convert_all(ychildren)?,
                None => Vec::new(),
            };
            Ok(
                Field::Bitmapped(
                    BmpField {
                        name: self.name.clone(),
                        id: self.id,
                        encoding: self.data_encoding,
                        children,
                    },
                ),
            )
        } else {
            Err(
                IsoError {
                    kind: ErrorKind::Unsupported,
                    msg: self.field_type.clone(),
                    position: 0,
                },
            )
        }
    }
}

/// The fields that the descriptions stand for, in their order.
pub fn convert_all(ys: &Vec<YField>) -> (r: Result<Vec<Field>, IsoError>)
    ensures
        match first_error(ys@, 0) {
            Some(f) => r is Err && r->Err_0@ == f,
            None => r is Ok && describe_all(ys@, r->Ok_0@),
        },
    decreases ys,
{
    let mut fields: Vec<Field> = Vec::new();
    let mut i: usize = 0;
    while i < ys.len()
        invariant
            i <= ys@.len(),
            fields@.len() == i,
            first_error(ys@, 0) == first_error(ys@, i as int),
            forall|j: int| 0 <= j < i ==> (#[trigger] ys@[j]).describes(fields@[j]),
        decreases ys@.len() - i,
    {
        match YField::into(&ys[i]) {
            Ok(f) => {
                fields.push(f);
            },
            Err(e) => {
                return Err(e);
            },
        }
        i = i + 1;
    }
    Ok(fields)
}

// Spec is the definition of the spec - layout of fields etc..
#[derive(Debug)]
pub struct YSpec {
    pub name: String,
    pub id: u32,
    pub messages: Vec<YMessageSegment>,
    pub header_fields: Vec<YField>,
}

/// A message segment as a dialect file describes it.
#[derive(Debug)]
pub struct YMessageSegment {
    pub name: String,
    pub id: u32,
    pub selector: Vec<String>,
    pub fields: Vec<YField>,
}

/// Whether two lists of strings read the same.
pub open spec fn same_strings(a: Seq<String>, b: Seq<String>) -> bool {
    &&& a.len() == b.len()
    &&& forall|i: int| 0 <= i < a.len() ==> (#[trigger] a[i])@ == b[i]@
}

impl YMessageSegment {
    /// Whether this description and the segment `m` say the same.
    pub open spec fn describes(&self, m: MessageSegment) -> bool {
        &&& m.name@ == self.name@
        &&& m.id == self.id
        &&& same_strings(self.selector@, m.selector@)
        &&& describe_all(self.fields@, m.fields@)
    }
}

/// Why the segments from `i` on cannot be converted, if so: the first reason met.
pub open spec fn first_segment_error(ms: Seq<YMessageSegment>, i: int) -> Option<Failure>
    decreases ms.len() - i,
{
    if i < 0 || i >= ms.len() {
        None
    } else {
        match first_error(ms[i].fields@, 0) {
            Some(f) => Some(f),
            None => first_segment_error(ms, i + 1),
        }
    }
}

impl MessageSegment {
    /// The segment that a description stands for.
    pub fn from(yms: &YMessageSegment) -> (r: Result<MessageSegment, IsoError>)
        ensures
            match first_error(yms.fields@, 0) {
                Some(f) => r is Err && r->Err_0@ == f,
                None => r is Ok && yms.describes(r->Ok_0),
            },
    {
        let fields = convert_all(&yms.fields)?;
        let mut selector: Vec<String> = Vec::new();
        let mut i: usize = 0;
        while i < yms.selector.len()
            invariant
                i <= yms.selector@.len(),
                selector@.len() == i,
                forall|j: int| 0 <= j < i ==> (#[trigger] yms.selector@[j])@ == selector@[j]@,
            decreases yms.selector@.len() - i,
        {
            selector.push(yms.selector[i].clone());
            i = i + 1;
        }
        Ok(MessageSegment { name: yms.name.clone(), id: yms.id, selector, fields })
    }
}

impl YSpec {
    /// Whether this description and the spec `s` say the same.
    pub open spec fn describes(&self, s: Spec) -> bool {
        &&& s.name@ == self.name@
        &&& s.id == self.id
        &&& describe_all(self.header_fields@, s.header_fields@)
        &&& s.messages@.len() == self.messages@.len()
        &&& forall|i: int|
            0 <= i < self.messages@.len() ==> (#[trigger] self.messages@[i]).describes(
                s.messages@[i],
            )
    }

    /// Why this description cannot be converted, if so: the first reason
    /// met in the header fields, then in the segments.
    pub open spec fn conversion_error(&self) -> Option<Failure> {
        match first_error(self.header_fields@, 0) {
            Some(f) => Some(f),
            None => first_segment_error(self.messages@, 0),
        }
    }

    /// The spec that this description stands for.
    #[verifier::loop_isolation(false)]
    pub fn into(self) -> (r: Result<Spec, IsoError>)
        ensures
            match self.conversion_error() {
                Some(f) => r is Err && r->Err_0@ == f,
                None => r is Ok && self.describes(r->Ok_0),
            },
    {
        let header_fields = convert_all(&self.header_fields)?;
        let mut messages: Vec<MessageSegment> = Vec::new();
        let mut i: usize = 0;
        while i < self.messages.len()
            invariant
                i <= self.messages@.len(),
                messages@.len() == i,
                first_segment_error(self.messages@, 0) == first_segment_error(
                    self.messages@,
                    i as int,
                ),
                forall|j: int|
                    0 <= j < i ==> (#[trigger] self.messages@[j]).describes(messages@[j]),
            decreases self.messages@.len() - i,
        {
            match MessageSegment::from(&self.messages[i]) {
                Ok(m) => {
                    messages.push(m);
                },
                Err(e) => {
                    return Err(e);
                },
            }
            i = i + 1;
        }
        Ok(Spec { name: self.name.clone(), id: self.id, messages, header_fields })
    }
}

} // verus!
