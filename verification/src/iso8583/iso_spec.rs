//! This module contains implementation of specification, its segments and associated operations
//!
use crate::crypto::pin::generate_pin_block;
use crate::crypto::pin::is_pin_block;
use crate::crypto::pin::pin_input_error;
use crate::hexcodec::hex_encode;
use crate::hexcodec::hex_text;
use crate::iso8583::bitmap::Bitmap;
use crate::iso8583::config::Config;
use crate::iso8583::field::Field;
use crate::iso8583::field::ParseError;
use crate::iso8583::reader::ByteReader;
use crate::iso8583::store::FieldStore;
use crate::iso8583::ErrorKind;
use crate::iso8583::Failure;
use crate::iso8583::IsoError;
use vstd::prelude::*;
use vstd::string::StringExecFns;

verus! {

/// This struct is the definition of the specification - layout of fields etc..
#[derive(Debug)]
pub struct Spec {
    pub name: String,
    pub id: u32,
    pub messages: Vec<MessageSegment>,
    pub header_fields: Vec<Field>,
}

/// This struct represents a segment in the Spec (a auth request, a response etc)
#[derive(Debug)]
pub struct MessageSegment {
    pub name: String,
    pub id: u32,
    pub selector: Vec<String>,
    pub fields: Vec<Field>,
}

/// What a message holds: its field values and its bitmap.
pub struct MsgState {
    pub store: Map<Seq<char>, Seq<u8>>,
    pub bmp: Bitmap,
}

/// What parsing the fields of a segment leaves: the state reached, and the failure, if it failed.
pub struct MessageOutcome {
    pub state: MsgState,
    pub failure: Option<Failure>,
}

/// The index of the first field named `name`, looking from `from` on.
pub open spec fn field_index(fields: Seq<Field>, name: Seq<char>, from: int) -> Option<int>
    decreases fields.len() - from,
{
    if from < 0 || from >= fields.len() {
        None
    } else if fields[from].name_view() == name {
        Some(from)
    } else {
        field_index(fields, name, from + 1)
    }
}

/// Whether `value` is one of the strings of `selector`.
pub open spec fn selects(selector: Seq<String>, value: Seq<char>) -> bool {
    exists|i: int| 0 <= i < selector.len() && (#[trigger] selector[i])@ == value
}

/// A failure about the field or value named `subject`.
pub open spec fn about(kind: ErrorKind, subject: Seq<char>, position: u32) -> Failure {
    Failure { kind, subject, position }
}

fn find_field<'a>(fields: &'a Vec<Field>, name: &String) -> (r: Option<&'a Field>)
    ensures
        match field_index(fields@, name@, 0) {
            Some(i) => 0 <= i < fields@.len() && r == Some(&fields@[i]),
            None => r is None,
        },
{
    let mut i: usize = 0;
    while i < fields.len()
        invariant
            i <= fields@.len(),
            field_index(fields@, name@, 0) == field_index(fields@, name@, i as int),
        decreases fields@.len() - i,
    {
        if *fields[i].name() == *name {
            return Some(&fields[i]);
        }
        i = i + 1;
    }
    None
}

/// Operations on MessageSegment
impl MessageSegment {
    /// Returns name of segment
    pub fn name(&self) -> (r: &str)
        ensures
            r@ == self.name@,
    {
        self.name.as_str()
    }

    /// The field that `name` stands for: a top-level field of that name, or
    /// else a child of that name under the field named "bitmap".
    pub open spec fn lookup(&self, name: Seq<char>) -> Option<Field> {
        match field_index(self.fields@, name, 0) {
            Some(i) => Some(self.fields@[i]),
            None => match field_index(self.fields@, "bitmap"@, 0) {
                Some(b) => match self.fields@[b] {
                    Field::Bitmapped(bf) => match bf.name_index(name, 0) {
                        Some(j) => Some(bf.children@[j]),
                        None => None,
                    },
                    _ => None,
                },
                None => None,
            },
        }
    }

    /// The child defined at `pos` under the field named "bitmap".
    pub open spec fn child_at(&self, pos: u32) -> Option<Field> {
        match field_index(self.fields@, "bitmap"@, 0) {
            Some(b) => match self.fields@[b] {
                Field::Bitmapped(bf) => match bf.position_index(pos, 0) {
                    Some(j) => Some(bf.children@[j]),
                    None => None,
                },
                _ => None,
            },
            None => None,
        }
    }

    /// Returns a field given it's name if defined in the spec or a IsoError if the field is not found
    pub fn field_by_name(&self, name: &String) -> (r: Result<&Field, IsoError>)
        ensures
            match self.lookup(name@) {
                Some(f) => r == Ok::<&Field, IsoError>(&f),
                None => r is Err && r->Err_0@ == about(ErrorKind::UndefinedField, name@, 0),
            },
    {
        match find_field(&self.fields, name) {
            Some(f) => Ok(f),
            None => {
                let bitmap = String::from_str("bitmap");
                let found = match find_field(&self.fields, &bitmap) {
                    Some(bmp) => match bmp.child_by_name(name) {
                        Ok(c) => Some(c),
                        Err(_) => None,
                    },
                    None => None,
                };
                match found {
                    Some(c) => Ok(c),
                    None => Err(
                        IsoError {
                            kind: ErrorKind::UndefinedField,
                            msg: name.clone(),
                            position: 0,
                        },
                    ),
                }
            },
        }
    }

    /// The child defined at `pos` under the field named "bitmap", or
    /// `UndefinedField` for that position.
    pub fn bitmap_child(&self, pos: u32) -> (r: Result<&Field, IsoError>)
        ensures
            match self.child_at(pos) {
                Some(f) => r == Ok::<&Field, IsoError>(&f),
                None => r is Err && r->Err_0@ == about(ErrorKind::UndefinedField, "bitmap"@, pos),
            },
    {
        let bitmap = String::from_str("bitmap");
        let found = match find_field(&self.fields, &bitmap) {
            Some(bmp) => match bmp.child_by_pos(pos) {
                Ok(c) => Some(c),
                Err(_) => None,
            },
            None => None,
        };
        match found {
            Some(c) => Ok(c),
            None => Err(IsoError { kind: ErrorKind::UndefinedField, msg: bitmap, position: pos }),
        }
    }

    /// The string view of the value held for the child at `pos`.
    pub open spec fn child_value(&self, store: Map<Seq<char>, Seq<u8>>, pos: u32) -> Result<
        Seq<char>,
        Failure,
    > {
        match self.child_at(pos) {
            None => Err(about(ErrorKind::UndefinedField, "bitmap"@, pos)),
            Some(c) => if !store.contains_key(c.name_view()) {
                Err(about(ErrorKind::MissingField, c.name_view(), pos))
            } else {
                match c.text_of(store[c.name_view()]) {
                    Some(t) => Ok(t),
                    None => Err(about(ErrorKind::BadEncoding, c.name_view(), pos)),
                }
            },
        }
    }

    /// The string view of the value held for the top-level field `name`.
    pub open spec fn field_value(&self, store: Map<Seq<char>, Seq<u8>>, name: Seq<char>) -> Result<
        Seq<char>,
        Failure,
    > {
        match field_index(self.fields@, name, 0) {
            None => Err(about(ErrorKind::UndefinedField, name, 0)),
            Some(i) => if !store.contains_key(name) {
                Err(about(ErrorKind::MissingField, name, 0))
            } else {
                match self.fields@[i].text_of(store[name]) {
                    Some(t) => Ok(t),
                    None => Err(about(ErrorKind::BadEncoding, name, 0)),
                }
            },
        }
    }

    /// The state after `set(name, val)`.
    pub open spec fn after_set(&self, st: MsgState, name: Seq<char>, val: Seq<char>) -> Result<
        MsgState,
        Failure,
    > {
        match self.lookup(name) {
            None => Err(about(ErrorKind::UndefinedField, name, 0)),
            Some(f) => match f.raw_of(val) {
                Err(e) => Err(about(e.kind, name, 0)),
                Ok(raw) => Ok(MsgState { store: st.store.insert(f.name_view(), raw), bmp: st.bmp }),
            },
        }
    }

    /// The state after `set_on(pos, val)`.
    pub open spec fn after_set_on(&self, st: MsgState, pos: u32, val: Seq<char>) -> Result<
        MsgState,
        Failure,
    > {
        if pos < 1 || pos > 192 {
            Err(about(ErrorKind::BadPosition, Seq::<char>::empty(), pos))
        } else {
            match self.child_at(pos) {
                None => Err(about(ErrorKind::UndefinedField, "bitmap"@, pos)),
                Some(c) => match c.raw_of(val) {
                    Err(e) => Err(about(e.kind, c.name_view(), pos)),
                    Ok(raw) => Ok(
                        MsgState {
                            store: st.store.insert(c.name_view(), raw),
                            bmp: st.bmp.with(pos as int),
                        },
                    ),
                },
            }
        }
    }

    /// The state after echoing `positions` from `i` on out of a message of
    /// segment `src` that holds `src_store`, and the failure that stopped it, if any.
    pub open spec fn after_echo(
        &self,
        st: MsgState,
        src: &MessageSegment,
        src_store: Map<Seq<char>, Seq<u8>>,
        positions: Seq<u32>,
        i: int,
    ) -> MessageOutcome
        decreases positions.len() - i,
    {
        if i < 0 || i >= positions.len() {
            MessageOutcome { state: st, failure: None }
        } else {
            match src.child_value(src_store, positions[i]) {
                Err(f) => MessageOutcome { state: st, failure: Some(f) },
                Ok(t) => match self.after_set_on(st, positions[i], t) {
                    Err(f) => MessageOutcome { state: st, failure: Some(f) },
                    Ok(st2) => self.after_echo(st2, src, src_store, positions, i + 1),
                },
            }
        }
    }

    /// The bytes of the fields from `i` on, in declared order.
    pub open spec fn bytes_from(&self, st: MsgState, i: int) -> Result<Seq<u8>, Failure>
        decreases self.fields@.len() - i,
    {
        if i < 0 || i >= self.fields@.len() {
            Ok(Seq::<u8>::empty())
        } else {
            match self.fields@[i].assemble_spec(st.store, st.bmp) {
                Err(f) => Err(f),
                Ok(b) => match self.bytes_from(st, i + 1) {
                    Err(f) => Err(f),
                    Ok(more) => Ok(b + more),
                },
            }
        }
    }

    /// Parsing the fields from `i` on, in declared order. After a field
    /// named "bitmap" the bitmap is the one that its stored bytes spell.
    pub open spec fn parsed_from(&self, i: int, rem: Seq<u8>, st: MsgState) -> MessageOutcome
        decreases self.fields@.len() - i,
    {
        if i < 0 || i >= self.fields@.len() {
            MessageOutcome { state: st, failure: None }
        } else {
            let f = self.fields@[i];
            let o = f.parse_spec(rem, st.store);
            if o.failure is Some {
                MessageOutcome {
                    state: MsgState { store: o.store, bmp: st.bmp },
                    failure: o.failure,
                }
            } else if f.name_view() == "bitmap"@ && o.store.contains_key(f.name_view()) {
                match Bitmap::parse_wire(o.store[f.name_view()]) {
                    None => MessageOutcome {
                        state: MsgState { store: o.store, bmp: st.bmp },
                        failure: Some(about(ErrorKind::Truncated, f.name_view(), 0)),
                    },
                    Some((b, used)) => self.parsed_from(
                        i + 1,
                        o.rest,
                        MsgState { store: o.store, bmp: b },
                    ),
                }
            } else {
                self.parsed_from(i + 1, o.rest, MsgState { store: o.store, bmp: st.bmp })
            }
        }
    }
}

/// The zero bitmap.
pub open spec fn empty_bitmap() -> Bitmap {
    Bitmap { p_bmp: 0, s_bmp: 0, t_bmp: 0 }
}

/// The state of a message that holds nothing.
pub open spec fn empty_state() -> MsgState {
    MsgState { store: Map::<Seq<char>, Seq<u8>>::empty(), bmp: empty_bitmap() }
}

/// The index of the first segment named `name`, looking from `from` on.
pub open spec fn segment_named(messages: Seq<MessageSegment>, name: Seq<char>, from: int) -> Option<
    int,
>
    decreases messages.len() - from,
{
    if from < 0 || from >= messages.len() {
        None
    } else if messages[from].name@ == name {
        Some(from)
    } else {
        segment_named(messages, name, from + 1)
    }
}

/// The index of the first segment whose selector holds `header`, looking from `from` on.
pub open spec fn segment_for(messages: Seq<MessageSegment>, header: Seq<char>, from: int) -> Option<
    int,
>
    decreases messages.len() - from,
{
    if from < 0 || from >= messages.len() {
        None
    } else if selects(messages[from].selector@, header) {
        Some(from)
    } else {
        segment_for(messages, header, from + 1)
    }
}

/// The routing key: the header fields parsed in order from `i` on, their
/// string views concatenated.
pub open spec fn header_text(
    fields: Seq<Field>,
    i: int,
    rem: Seq<u8>,
    store: Map<Seq<char>, Seq<u8>>,
) -> Result<Seq<char>, Failure>
    decreases fields.len() - i,
{
    if i < 0 || i >= fields.len() {
        Ok(Seq::<char>::empty())
    } else {
        let f = fields[i];
        let o = f.parse_spec(rem, store);
        if o.failure is Some {
            Err(o.failure->Some_0)
        } else if !o.store.contains_key(f.name_view()) {
            Err(about(ErrorKind::MissingField, f.name_view(), 0))
        } else {
            match f.text_of(o.store[f.name_view()]) {
                None => Err(about(ErrorKind::BadEncoding, f.name_view(), 0)),
                Some(t) => match header_text(fields, i + 1, o.rest, o.store) {
                    Err(e) => Err(e),
                    Ok(more) => Ok(t + more),
                },
            }
        }
    }
}

fn selector_holds(selector: &Vec<String>, value: &String) -> (r: bool)
    ensures
        r == selects(selector@, value@),
{
    let mut i: usize = 0;
    while i < selector.len()
        invariant
            i <= selector@.len(),
            forall|j: int| 0 <= j < i ==> (#[trigger] selector@[j])@ != value@,
        decreases selector@.len() - i,
    {
        if selector[i] == *value {
            return true;
        }
        i = i + 1;
    }
    false
}

impl Spec {
    /// Returns name of the spec
    pub fn name(&self) -> (r: &str)
        ensures
            r@ == self.name@,
    {
        self.name.as_str()
    }

    /// Returns a message segment given its name or a IsoError if such a segment is not present
    pub fn get_message(&self, name: &str) -> (r: Result<&MessageSegment, IsoError>)
        ensures
            match segment_named(self.messages@, name@, 0) {
                Some(i) => 0 <= i < self.messages@.len() && r == Ok::<&MessageSegment, IsoError>(
                    &self.messages@[i],
                ),
                None => r is Err && r->Err_0@ == about(ErrorKind::UnknownMessage, name@, 0),
            },
    {
        let wanted = String::from_str(name);
        let mut i: usize = 0;
        while i < self.messages.len()
            invariant
                i <= self.messages@.len(),
                wanted@ == name@,
                segment_named(self.messages@, name@, 0) == segment_named(
                    self.messages@,
                    name@,
                    i as int,
                ),
            decreases self.messages@.len() - i,
        {
            if self.messages[i].name == wanted {
                return Ok(&self.messages[i]);
            }
            i = i + 1;
        }
        Err(IsoError { kind: ErrorKind::UnknownMessage, msg: wanted, position: 0 })
    }

    /// Returns a message that corresponds to the given header value or an IsoError if such a selector
    /// doesn't exist
    pub fn get_message_from_header(&self, header_val: &str) -> (r: Result<
        &MessageSegment,
        IsoError,
    >)
        ensures
            match segment_for(self.messages@, header_val@, 0) {
                Some(i) => 0 <= i < self.messages@.len() && r == Ok::<&MessageSegment, IsoError>(
                    &self.messages@[i],
                ),
                None => r is Err && r->Err_0@ == about(ErrorKind::UnknownMessage, header_val@, 0),
            },
    {
        let wanted = String::from_str(header_val);
        let mut i: usize = 0;
        while i < self.messages.len()
            invariant
                i <= self.messages@.len(),
                wanted@ == header_val@,
                segment_for(self.messages@, header_val@, 0) == segment_for(
                    self.messages@,
                    header_val@,
                    i as int,
                ),
            decreases self.messages@.len() - i,
        {
            if selector_holds(&self.messages[i].selector, &wanted) {
                return Ok(&self.messages[i]);
            }
            i = i + 1;
        }
        Err(IsoError { kind: ErrorKind::UnknownMessage, msg: wanted, position: 0 })
    }

    /// The segment that `data` belongs to: the header fields are parsed off
    /// its front and the first segment that their text selects is taken.
    pub open spec fn segment_of(&self, data: Seq<u8>) -> Result<int, Failure> {
        match header_text(self.header_fields@, 0, data, Map::<Seq<char>, Seq<u8>>::empty()) {
            Err(f) => Err(f),
            Ok(h) => match segment_for(self.messages@, h, 0) {
                None => Err(about(ErrorKind::UnknownMessage, h, 0)),
                Some(k) => Ok(k),
            },
        }
    }

    /// Returns a segment by first parsing the header field and then matching the header value against
    /// the selector
    #[verifier::loop_isolation(false)]
    pub fn get_msg_segment(&self, data: &Vec<u8>) -> (r: Result<&MessageSegment, IsoError>)
        ensures
            match self.segment_of(data@) {
                Ok(k) => 0 <= k < self.messages@.len() && r == Ok::<&MessageSegment, IsoError>(
                    &self.messages@[k],
                ),
                Err(f) => r is Err && r->Err_0@ == f,
            },
    {
        let mut selector = String::new();
        let mut f2d_map = FieldStore::new();
        let mut in_buf = ByteReader::new(data.as_slice());
        let ghost whole = header_text(
            self.header_fields@,
            0,
            data@,
            Map::<Seq<char>, Seq<u8>>::empty(),
        );
        let mut i: usize = 0;
        while i < self.header_fields.len()
            invariant
                i <= self.header_fields@.len(),
                whole == match header_text(
                    self.header_fields@,
                    i as int,
                    in_buf.remaining(),
                    f2d_map@,
                ) {
                    Ok(more) => Ok::<Seq<char>, Failure>(selector@ + more),
                    Err(f) => Err::<Seq<char>, Failure>(f),
                },
            decreases self.header_fields@.len() - i,
        {
            let f = &self.header_fields[i];
            match f.parse(&mut in_buf, &mut f2d_map) {
                Ok(_) => {
                    let text = match f2d_map.get(f.name()) {
                        Some(v) => f.to_string(v),
                        None => {
                            return Err(
                                IsoError {
                                    kind: ErrorKind::MissingField,
                                    msg: f.name().clone(),
                                    position: 0,
                                },
                            );
                        },
                    };
                    match text {
                        Ok(t) => {
                            proof {
                                match header_text(
                                    self.header_fields@,
                                    i as int + 1,
                                    in_buf.remaining(),
                                    f2d_map@,
                                ) {
                                    Ok(more) => {
                                        assert(selector@ + (t@ + more) =~= (selector@ + t@) + more);
                                    },
                                    Err(_) => {},
                                }
                            }
                            selector.append(t.as_str());
                        },
                        Err(_) => {
                            return Err(
                                IsoError {
                                    kind: ErrorKind::BadEncoding,
                                    msg: f.name().clone(),
                                    position: 0,
                                },
                            );
                        },
                    }
                },
                Err(e) => {
                    return Err(IsoError::from_parse(e));
                },
            }
            i = i + 1;
        }
        assert(selector@ + Seq::<char>::empty() =~= selector@);
        self.get_message_from_header(selector.as_str())
    }

    /// What parsing `data` gives: the index of the segment and the state of
    /// the message. Bytes after the last declared field are left over.
    pub open spec fn parse_spec(&self, data: Seq<u8>) -> Result<(int, MsgState), Failure> {
        match self.segment_of(data) {
            Err(f) => Err(f),
            Ok(k) => {
                let o = self.messages@[k].parsed_from(0, data, empty_state());
                match o.failure {
                    Some(f) => Err(f),
                    None => Ok((k, o.state)),
                }
            },
        }
    }

    /// Returns a IsoMsg after parsing data or an ParseError on failure
    #[verifier::loop_isolation(false)]
    pub fn parse(&'static self, data: &Vec<u8>) -> (r: Result<IsoMsg, ParseError>)
        ensures
            match self.parse_spec(data@) {
                Ok((k, st)) => 0 <= k < self.messages@.len() && r is Ok && r->Ok_0.spec == self
                    && r->Ok_0.msg == &self.messages@[k] && r->Ok_0.holds(st),
                Err(f) => r is Err && r->Err_0@ == f,
            },
    {
        let seg: &'static MessageSegment = match self.get_msg_segment(data) {
            Ok(m) => m,
            Err(e) => {
                return Err(e.into_parse());
            },
        };
        let mut iso_msg = IsoMsg {
            spec: self,
            msg: seg,
            fd_map: FieldStore::new(),
            bmp: Bitmap::new(0, 0, 0),
        };
        let bitmap = String::from_str("bitmap");
        let mut cp_data = ByteReader::new(data.as_slice());
        let ghost whole = seg.parsed_from(0, data@, empty_state());
        let mut i: usize = 0;
        while i < seg.fields.len()
            invariant
                i <= seg.fields@.len(),
                bitmap@ == "bitmap"@,
                iso_msg.spec == self,
                iso_msg.msg == seg,
                whole == seg.parsed_from(i as int, cp_data.remaining(), iso_msg@),
            decreases seg.fields@.len() - i,
        {
            let f = &seg.fields[i];
            match f.parse(&mut cp_data, &mut iso_msg.fd_map) {
                Err(e) => {
                    return Err(e);
                },
                Ok(_) => {
                    //if this is "THE" bitmap, then save it on isomsg
                    if *f.name() == bitmap {
                        let parsed = match iso_msg.fd_map.get(f.name()) {
                            Some(bmp_data) => Some(Bitmap::from_vec(bmp_data)),
                            None => None,
                        };
                        match parsed {
                            Some(Ok(b)) => {
                                iso_msg.bmp = b;
                            },
                            Some(Err(_)) => {
                                return Err(
                                    ParseError {
                                        kind: ErrorKind::Truncated,
                                        msg: f.name().clone(),
                                        position: 0,
                                    },
                                );
                            },
                            None => {},
                        }
                    }
                },
            }
            i = i + 1;
        }
        Ok(iso_msg)
    }
}

/// This struct represents a parsed message for a given spec
#[derive(Debug)]
pub struct IsoMsg {
    /// The spec associated with this IsoMsg
    pub spec: &'static Spec,
    /// The segment that the IsoMsg represents
    pub msg: &'static MessageSegment,
    /// field data map - name to raw value
    pub fd_map: FieldStore,
    /// the bitmap on the iso message
    pub bmp: Bitmap,
}

impl View for IsoMsg {
    type V = MsgState;

    open spec fn view(&self) -> MsgState {
        MsgState { store: self.fd_map@, bmp: self.bmp }
    }
}

/// Operations on IsoMsg
impl IsoMsg {
    /// Whether the message holds exactly `st`.
    pub open spec fn holds(&self, st: MsgState) -> bool {
        self.fd_map@ =~= st.store && self.bmp == st.bmp
    }

    /// How a change answers to its outcome: on success the message holds
    /// the new state, on failure it holds what it held.
    pub open spec fn changed_to(
        &self,
        before: MsgState,
        o: Result<MsgState, Failure>,
        r: Result<(), IsoError>,
    ) -> bool {
        match o {
            Ok(st) => r is Ok && self.holds(st),
            Err(f) => r is Err && r->Err_0@ == f && self.holds(before),
        }
    }

    /// The spec associated with this message.
    pub fn spec(&self) -> (r: &'static Spec)
        ensures
            r == self.spec,
    {
        self.spec
    }

    /// Returns the value of a field by position in the bitmap
    pub fn bmp_child_value(&self, pos: u32) -> (r: Result<String, IsoError>)
        ensures
            match self.msg.child_value(self.fd_map@, pos) {
                Ok(t) => r is Ok && r->Ok_0@ == t,
                Err(f) => r is Err && r->Err_0@ == f,
            },
    {
        let cf = match self.msg.bitmap_child(pos) {
            Ok(f) => f,
            Err(e) => {
                return Err(e);
            },
        };
        match self.fd_map.get(cf.name()) {
            None => Err(
                IsoError { kind: ErrorKind::MissingField, msg: cf.name().clone(), position: pos },
            ),
            Some(v) => match cf.to_string(v) {
                Ok(t) => Ok(t),
                Err(_) => Err(
                    IsoError {
                        kind: ErrorKind::BadEncoding,
                        msg: cf.name().clone(),
                        position: pos,
                    },
                ),
            },
        }
    }

    /// Returns the value of a top level field like message_type
    pub fn get_field_value(&self, name: &String) -> (r: Result<String, IsoError>)
        ensures
            match self.msg.field_value(self.fd_map@, name@) {
                Ok(t) => r is Ok && r->Ok_0@ == t,
                Err(f) => r is Err && r->Err_0@ == f,
            },
    {
        match find_field(&self.msg.fields, name) {
            Some(f) => match self.fd_map.get(name) {
                Some(v) => match f.to_string(v) {
                    Ok(t) => Ok(t),
                    Err(_) => Err(
                        IsoError { kind: ErrorKind::BadEncoding, msg: name.clone(), position: 0 },
                    ),
                },
                None => Err(
                    IsoError { kind: ErrorKind::MissingField, msg: name.clone(), position: 0 },
                ),
            },
            None => Err(
                IsoError { kind: ErrorKind::UndefinedField, msg: name.clone(), position: 0 },
            ),
        }
    }

    /// sets a top-level field like message_type etc
    pub fn set(&mut self, name: &str, val: &str) -> (r: Result<(), IsoError>)
        ensures
            final(self).spec == old(self).spec,
            final(self).msg == old(self).msg,
            final(self).changed_to(old(self)@, old(self).msg.after_set(old(self)@, name@, val@), r),
    {
        let seg: &'static MessageSegment = self.msg;
        let wanted = String::from_str(name);
        let f = match seg.field_by_name(&wanted) {
            Ok(f) => f,
            Err(e) => {
                return Err(e);
            },
        };
        match f.to_raw(val) {
            Ok(raw) => {
                self.fd_map.insert(f.name().clone(), raw);
                Ok(())
            },
            Err(e) => Err(IsoError { kind: e.kind, msg: wanted, position: 0 }),
        }
    }

    /// Sets a field in the bitmap with the given value
    pub fn set_on(&mut self, pos: u32, val: &str) -> (r: Result<(), IsoError>)
        ensures
            final(self).spec == old(self).spec,
            final(self).msg == old(self).msg,
            final(self).changed_to(old(self)@, old(self).msg.after_set_on(old(self)@, pos, val@), r),
    {
        if pos < 1 || pos > 192 {
            return Err(IsoError { kind: ErrorKind::BadPosition, msg: String::new(), position: pos });
        }
        let seg: &'static MessageSegment = self.msg;
        let cf = match seg.bitmap_child(pos) {
            Ok(f) => f,
            Err(e) => {
                return Err(e);
            },
        };
        match cf.to_raw(val) {
            Ok(raw) => {
                self.fd_map.insert(cf.name().clone(), raw);
                let _ = self.bmp.set_on(pos);
                Ok(())
            },
            Err(e) => Err(IsoError { kind: e.kind, msg: cf.name().clone(), position: pos }),
        }
    }

    /// Echoes (sets the value with the identical field in req_msg) for given positions in the bitmap.
    /// Stops at the first position that fails; the positions before it stay echoed.
    #[verifier::loop_isolation(false)]
    pub fn echo_from(&mut self, req_msg: &IsoMsg, positions: &[u32]) -> (r: Result<(), IsoError>)
        ensures
            final(self).spec == old(self).spec,
            final(self).msg == old(self).msg,
            ({
                let o = old(self).msg.after_echo(
                    old(self)@,
                    req_msg.msg,
                    req_msg.fd_map@,
                    positions@,
                    0,
                );
                &&& final(self).holds(o.state)
                &&& match o.failure {
                    Some(f) => r is Err && r->Err_0@ == f,
                    None => r is Ok,
                }
            }),
    {
        let ghost whole = self.msg.after_echo(self@, req_msg.msg, req_msg.fd_map@, positions@, 0);
        let mut i: usize = 0;
        while i < positions.len()
            invariant
                i <= positions@.len(),
                self.spec == old(self).spec,
                self.msg == old(self).msg,
                whole == self.msg.after_echo(
                    MsgState { store: self.fd_map@, bmp: self.bmp },
                    req_msg.msg,
                    req_msg.fd_map@,
                    positions@,
                    i as int,
                ),
            decreases positions@.len() - i,
        {
            let pos: u32 = positions[i];
            match req_msg.bmp_child_value(pos) {
                Ok(res) => {
                    match self.set_on(pos, res.as_str()) {
                        Ok(_) => {},
                        Err(e) => {
                            return Err(e);
                        },
                    }
                },
                Err(e) => {
                    return Err(e);
                },
            }
            i = i + 1;
        }
        Ok(())
    }

    /// Assembles the messages into a Vec<u8> or a IsoError on failure
    #[verifier::loop_isolation(false)]
    pub fn assemble(&self) -> (r: Result<Vec<u8>, IsoError>)
        ensures
            match self.msg.bytes_from(self@, 0) {
                Ok(b) => r is Ok && r->Ok_0@ == b,
                Err(f) => r is Err && r->Err_0@ == f,
            },
    {
        let mut out_buf: Vec<u8> = Vec::new();
        let ghost whole = self.msg.bytes_from(self@, 0);
        let mut i: usize = 0;
        while i < self.msg.fields.len()
            invariant
                i <= self.msg.fields@.len(),
                whole == match self.msg.bytes_from(self@, i as int) {
                    Ok(more) => Ok::<Seq<u8>, Failure>(out_buf@ + more),
                    Err(f) => Err::<Seq<u8>, Failure>(f),
                },
            decreases self.msg.fields@.len() - i,
        {
            let ghost before = out_buf@;
            match self.msg.fields[i].assemble(&mut out_buf, self) {
                Ok(_) => {
                    proof {
                        let b = self.msg.fields@[i as int].assemble_spec(self@.store, self@.bmp)->Ok_0;
                        match self.msg.bytes_from(self@, i as int + 1) {
                            Ok(more) => {
                                assert(before + (b + more) =~= (before + b) + more);
                            },
                            Err(_) => {},
                        }
                    }
                },
                Err(e) => {
                    return Err(IsoError::from_parse(e));
                },
            }
            i = i + 1;
        }
        assert(out_buf@ + Seq::<u8>::empty() =~= out_buf@);
        Ok(out_buf)
    }

    /// Puts an encrypted PIN block into field 52, as hexadecimal text.
    pub fn set_pin_block(&mut self, block: &Vec<u8>) -> (r: Result<(), IsoError>)
        ensures
            final(self).spec == old(self).spec,
            final(self).msg == old(self).msg,
            final(self).changed_to(
                old(self)@,
                old(self).msg.after_set_on(old(self)@, 52, hex_text(block@)),
                r,
            ),
    {
        let text = hex_encode(block.as_slice());
        self.set_on(52, text.as_str())
    }

    /// Sets F52 based on provided clear pin, and format/key provided via cfg.
    /// Without a format or a key in `cfg` it fails with `Unsupported`; a
    /// failure of the PIN block is passed on; either way nothing changes.
    pub fn set_pin(&mut self, pin: &str, pan: &str, cfg: &Config) -> (r: Result<(), IsoError>)
        ensures
            final(self).spec == old(self).spec,
            final(self).msg == old(self).msg,
            match (cfg@.pin_format, cfg@.pin_key) {
                (Some(fmt), Some(key)) => match pin_input_error(fmt, pin@, pan@, key) {
                    Some(f) => r is Err && r->Err_0@ == f && final(self).holds(old(self)@),
                    None => exists|pad: Seq<u8>, block: Seq<u8>|
                        pad.len() == 8 && #[trigger] is_pin_block(fmt, pin@, pan@, key, pad, block)
                            && final(self).changed_to(
                            old(self)@,
                            old(self).msg.after_set_on(old(self)@, 52, hex_text(block)),
                            r,
                        ),
                },
                _ => r is Err && r->Err_0@ == about(ErrorKind::Unsupported, "config"@, 0)
                    && final(self).holds(old(self)@),
            },
    {
        let made = match (cfg.get_pin_fmt(), cfg.get_pin_key()) {
            (Some(fmt), Some(key)) => generate_pin_block(fmt, pin, pan, key.as_str()),
            _ => {
                return Err(
                    IsoError {
                        kind: ErrorKind::Unsupported,
                        msg: String::from_str("config"),
                        position: 0,
                    },
                );
            },
        };
        match made {
            Ok(v) => self.set_pin_block(&v),
            Err(e) => Err(IsoError { kind: e.kind, msg: e.msg, position: 0 }),
        }
    }
}

/// Returns a empty IsoMsg that can be used to create a message
pub fn new_msg(spec: &'static Spec, seg: &'static MessageSegment) -> (m: IsoMsg)
    ensures
        m.spec == spec,
        m.msg == seg,
        m.holds(empty_state()),
{
    IsoMsg { spec, msg: seg, fd_map: FieldStore::new(), bmp: Bitmap::new(0, 0, 0) }
}

} // verus!
