//! The round trip: the bytes that a message assembles to parse back into
//! the message.
use crate::iso8583::bitmap::is_indicator;
use crate::iso8583::bitmap::lemma_wire_round_trip;
use crate::iso8583::bitmap::Bitmap;
use crate::iso8583::bitmap::BmpField;
use crate::iso8583::field::lemma_indicator_value;
use crate::iso8583::field::Field;
use crate::iso8583::field::ParseOutcome;
use crate::iso8583::iso_spec::empty_bitmap;
use crate::iso8583::iso_spec::empty_state;
use crate::iso8583::iso_spec::header_text;
use crate::iso8583::iso_spec::segment_for;
use crate::iso8583::iso_spec::MessageOutcome;
use crate::iso8583::iso_spec::MessageSegment;
use crate::iso8583::iso_spec::MsgState;
use crate::iso8583::iso_spec::Spec;
use crate::iso8583::Failure;
use vstd::prelude::*;

verus! {

/// Every value of `acc` is a value of `m` under the same name.
pub open spec fn agrees(acc: Map<Seq<char>, Seq<u8>>, m: Map<Seq<char>, Seq<u8>>) -> bool {
    forall|n: Seq<char>| #[trigger] acc.contains_key(n) ==> m.contains_key(n) && acc[n] == m[n]
}

/// A field that a message holding `m` and `bmp` can put on the wire so
/// that it reads back: a fixed field holds a value of its length, a
/// variable field holds a value that its indicator can declare, and a
/// bitmapped field holds the wire form of the live bitmap and, for each
/// position that is on, a child that is ready in turn.
pub open spec fn ready(f: Field, m: Map<Seq<char>, Seq<u8>>, bmp: Bitmap) -> bool
    decreases f, 0nat,
{
    match f {
        Field::Fixed(x) => m.contains_key(x.name@) && m[x.name@].len() == x.len,
        Field::Variable(v) => v.assemble_spec(m) is Ok,
        Field::Bitmapped(b) => m.contains_key(b.name@) && m[b.name@] == bmp.wire()
            && children_ready(b, m, bmp, 2),
    }
}

/// The children of `b` at the positions from `p` on that are on are defined, held and ready.
pub open spec fn children_ready(
    b: BmpField,
    m: Map<Seq<char>, Seq<u8>>,
    bmp: Bitmap,
    p: int,
) -> bool
    decreases b, (193 - p) as nat,
{
    if p < 2 || p > 192 {
        true
    } else if is_indicator(p) || !bmp.on(p) {
        children_ready(b, m, bmp, p + 1)
    } else {
        match b.position_index(p as u32, 0) {
            None => false,
            Some(i) => 0 <= i < b.children@.len() && m.contains_key(b.children@[i].name_view())
                && ready(b.children@[i], m, bmp) && children_ready(b, m, bmp, p + 1),
        }
    }
}

/// What parsing stores for a field that was assembled from `m` and `bmp`, on top of `acc`.
pub open spec fn stored(
    f: Field,
    m: Map<Seq<char>, Seq<u8>>,
    bmp: Bitmap,
    acc: Map<Seq<char>, Seq<u8>>,
) -> Map<Seq<char>, Seq<u8>>
    decreases f, 0nat,
{
    match f {
        Field::Fixed(x) => acc.insert(x.name@, m[x.name@]),
        Field::Variable(v) => acc.insert(v.name@, m[v.name@]),
        Field::Bitmapped(b) => children_stored(b, m, bmp, 2, acc.insert(b.name@, bmp.wire())),
    }
}

/// What parsing stores for the children of `b` at the positions from `p` on, on top of `acc`.
pub open spec fn children_stored(
    b: BmpField,
    m: Map<Seq<char>, Seq<u8>>,
    bmp: Bitmap,
    p: int,
    acc: Map<Seq<char>, Seq<u8>>,
) -> Map<Seq<char>, Seq<u8>>
    decreases b, (193 - p) as nat,
{
    if p < 2 || p > 192 {
        acc
    } else if is_indicator(p) || !bmp.on(p) {
        children_stored(b, m, bmp, p + 1, acc)
    } else {
        match b.position_index(p as u32, 0) {
            Some(i) => if 0 <= i < b.children@.len() {
                children_stored(b, m, bmp, p + 1, stored(b.children@[i], m, bmp, acc))
            } else {
                acc
            },
            None => acc,
        }
    }
}

/// A field that is ready assembles, and parsing what it assembled, whatever
/// follows, leaves what follows and stores the field's values.
pub proof fn lemma_field_round_trip(
    f: Field,
    m: Map<Seq<char>, Seq<u8>>,
    bmp: Bitmap,
    rest: Seq<u8>,
    acc: Map<Seq<char>, Seq<u8>>,
)
    requires
        ready(f, m, bmp),
        bmp.cascaded(),
    ensures
        f.assemble_spec(m, bmp) is Ok,
        f.parse_spec(f.assemble_spec(m, bmp)->Ok_0 + rest, acc) == (ParseOutcome {
            rest,
            store: stored(f, m, bmp, acc),
            failure: None,
        }),
    decreases f, 0nat,
{
    match f {
        Field::Fixed(x) => {
            let bytes = m[x.name@];
            let o = x.parse_spec(bytes + rest, acc);
            assert((bytes + rest).skip(x.len as int) =~= rest);
            assert((bytes + rest).take(x.len as int) =~= bytes);
            assert(o.rest =~= rest);
            assert(o.store =~= stored(f, m, bmp, acc));
        },
        Field::Variable(v) => {
            let data = m[v.name@];
            let w = v.len as int;
            let n = data.len();
            let ind = crate::iso8583::field::indicator(v.len_encoding, v.len, n);
            lemma_indicator_value(v.len_encoding, v.len, n);
            let rem = (ind + data) + rest;
            assert(rem.take(w) =~= ind);
            assert(rem.subrange(w, w + n) =~= data);
            assert(rem.skip(w + n) =~= rest);
            let o = v.parse_spec(rem, acc);
            assert(o.rest =~= rest);
            assert(o.store =~= stored(f, m, bmp, acc));
        },
        Field::Bitmapped(b) => {
            lemma_children_round_trip(b, m, bmp, 2, rest, acc.insert(b.name@, bmp.wire()));
            let more = b.children_bytes(m, bmp, 2)->Ok_0;
            let rem = (bmp.wire() + more) + rest;
            assert(rem =~= bmp.wire() + (more + rest));
            lemma_wire_round_trip(bmp, more + rest);
            assert(rem.skip(bmp.wire().len() as int) =~= more + rest);
        },
    }
}

/// The children that are ready assemble, and parsing what they assembled,
/// whatever follows, leaves what follows and stores their values.
pub proof fn lemma_children_round_trip(
    b: BmpField,
    m: Map<Seq<char>, Seq<u8>>,
    bmp: Bitmap,
    p: int,
    rest: Seq<u8>,
    acc: Map<Seq<char>, Seq<u8>>,
)
    requires
        children_ready(b, m, bmp, p),
        bmp.cascaded(),
    ensures
        b.children_bytes(m, bmp, p) is Ok,
        b.children_outcome(bmp, p, b.children_bytes(m, bmp, p)->Ok_0 + rest, acc)
            == (ParseOutcome { rest, store: children_stored(b, m, bmp, p, acc), failure: None }),
    decreases b, (193 - p) as nat,
{
    if p < 2 || p > 192 {
        assert(Seq::<u8>::empty() + rest =~= rest);
    } else if is_indicator(p) || !bmp.on(p) {
        lemma_children_round_trip(b, m, bmp, p + 1, rest, acc);
    } else {
        let i = b.position_index(p as u32, 0)->Some_0;
        let c = b.children@[i];
        lemma_children_round_trip(b, m, bmp, p + 1, rest, stored(c, m, bmp, acc));
        let more = b.children_bytes(m, bmp, p + 1)->Ok_0;
        lemma_field_round_trip(c, m, bmp, more + rest, acc);
        let own = c.assemble_spec(m, bmp)->Ok_0;
        assert((own + more) + rest =~= own + (more + rest));
    }
}

/// What is stored for a ready field agrees with the message it was
/// assembled from, keeps what was stored before, and holds the field's name.
pub proof fn lemma_stored_agrees(
    f: Field,
    m: Map<Seq<char>, Seq<u8>>,
    bmp: Bitmap,
    acc: Map<Seq<char>, Seq<u8>>,
)
    requires
        ready(f, m, bmp),
        agrees(acc, m),
    ensures
        agrees(stored(f, m, bmp, acc), m),
        stored(f, m, bmp, acc).contains_key(f.name_view()),
        forall|n: Seq<char>| acc.contains_key(n) ==> #[trigger] stored(f, m, bmp, acc).contains_key(n),
    decreases f, 0nat,
{
    match f {
        Field::Fixed(x) => {},
        Field::Variable(v) => {},
        Field::Bitmapped(b) => {
            lemma_children_stored_agrees(b, m, bmp, 2, acc.insert(b.name@, bmp.wire()));
            assert(acc.insert(b.name@, bmp.wire()).contains_key(b.name@));
        },
    }
}

/// What is stored for ready children agrees with the message they were
/// assembled from and keeps what was stored before.
pub proof fn lemma_children_stored_agrees(
    b: BmpField,
    m: Map<Seq<char>, Seq<u8>>,
    bmp: Bitmap,
    p: int,
    acc: Map<Seq<char>, Seq<u8>>,
)
    requires
        children_ready(b, m, bmp, p),
        agrees(acc, m),
    ensures
        agrees(children_stored(b, m, bmp, p, acc), m),
        forall|n: Seq<char>|
            acc.contains_key(n) ==> #[trigger] children_stored(b, m, bmp, p, acc).contains_key(n),
    decreases b, (193 - p) as nat,
{
    if p < 2 || p > 192 {
    } else if is_indicator(p) || !bmp.on(p) {
        lemma_children_stored_agrees(b, m, bmp, p + 1, acc);
    } else {
        let i = b.position_index(p as u32, 0)->Some_0;
        let c = b.children@[i];
        lemma_stored_agrees(c, m, bmp, acc);
        lemma_children_stored_agrees(b, m, bmp, p + 1, stored(c, m, bmp, acc));
    }
}

/// What parsing stores for the fields from `i` on, on top of `acc`.
pub open spec fn fields_stored(
    fields: Seq<Field>,
    st: MsgState,
    i: int,
    acc: Map<Seq<char>, Seq<u8>>,
) -> Map<Seq<char>, Seq<u8>>
    decreases fields.len() - i,
{
    if i < 0 || i >= fields.len() {
        acc
    } else {
        fields_stored(fields, st, i + 1, stored(fields[i], st.store, st.bmp, acc))
    }
}

/// The bitmap a parse ends with, having started the fields from `i` on
/// with `cur`: the live bitmap once a field named "bitmap" has gone by.
pub open spec fn bitmap_after(fields: Seq<Field>, bmp: Bitmap, i: int, cur: Bitmap) -> Bitmap
    decreases fields.len() - i,
{
    if i < 0 || i >= fields.len() {
        cur
    } else if fields[i].name_view() == "bitmap"@ {
        bitmap_after(fields, bmp, i + 1, bmp)
    } else {
        bitmap_after(fields, bmp, i + 1, cur)
    }
}

/// The fields of a segment are ready, and those named "bitmap" are bitmapped fields.
pub open spec fn fields_ready(fields: Seq<Field>, st: MsgState) -> bool {
    &&& forall|j: int| 0 <= j < fields.len() ==> ready(#[trigger] fields[j], st.store, st.bmp)
    &&& forall|j: int|
        0 <= j < fields.len() && (#[trigger] fields[j]).name_view() == "bitmap"@ ==> fields[j] is Bitmapped
}

/// A message of segment `k` of `s` that is valid for the wire: its bitmap
/// keeps the cascade invariant and is the one a parse would end with, its
/// fields are ready, and the bytes it assembles to are routed to its segment.
pub open spec fn message_ready(s: Spec, k: int, st: MsgState) -> bool {
    &&& 0 <= k < s.messages@.len()
    &&& st.bmp.cascaded()
    &&& fields_ready(s.messages@[k].fields@, st)
    &&& bitmap_after(s.messages@[k].fields@, st.bmp, 0, empty_bitmap()) == st.bmp
    &&& s.messages@[k].bytes_from(st, 0) matches Ok(bytes) && s.segment_of(bytes) == Ok::<
        int,
        Failure,
    >(k)
}

/// The message as it reads back: the values of the fields that go on the wire.
pub open spec fn as_parsed(seg: MessageSegment, st: MsgState) -> MsgState {
    MsgState {
        store: fields_stored(seg.fields@, st, 0, Map::<Seq<char>, Seq<u8>>::empty()),
        bmp: st.bmp,
    }
}

/// The fields from `i` on assemble, and parsing what they assembled leaves
/// their values stored and the live bitmap in place.
pub proof fn lemma_fields_round_trip(
    seg: MessageSegment,
    st: MsgState,
    i: int,
    rest: Seq<u8>,
    acc: Map<Seq<char>, Seq<u8>>,
    cur: Bitmap,
)
    requires
        0 <= i,
        fields_ready(seg.fields@, st),
        st.bmp.cascaded(),
        agrees(acc, st.store),
    ensures
        seg.bytes_from(st, i) is Ok,
        seg.parsed_from(
            i,
            seg.bytes_from(st, i)->Ok_0 + rest,
            MsgState { store: acc, bmp: cur },
        ) == (MessageOutcome {
            state: MsgState {
                store: fields_stored(seg.fields@, st, i, acc),
                bmp: bitmap_after(seg.fields@, st.bmp, i, cur),
            },
            failure: None,
        }),
        agrees(fields_stored(seg.fields@, st, i, acc), st.store),
    decreases seg.fields@.len() - i,
{
    if i >= seg.fields@.len() {
    } else {
        let f = seg.fields@[i];
        let next = stored(f, st.store, st.bmp, acc);
        lemma_stored_agrees(f, st.store, st.bmp, acc);
        let after = if f.name_view() == "bitmap"@ {
            st.bmp
        } else {
            cur
        };
        lemma_fields_round_trip(seg, st, i + 1, rest, next, after);
        let more = seg.bytes_from(st, i + 1)->Ok_0;
        lemma_field_round_trip(f, st.store, st.bmp, more + rest, acc);
        let own = f.assemble_spec(st.store, st.bmp)->Ok_0;
        assert((own + more) + rest =~= own + (more + rest));
        if f.name_view() == "bitmap"@ {
            assert(next[f.name_view()] == st.bmp.wire());
            lemma_wire_round_trip(st.bmp, Seq::<u8>::empty());
            assert(st.bmp.wire() + Seq::<u8>::empty() =~= st.bmp.wire());
        }
    }
}

/// The round trip. A message that is valid for the wire assembles, and
/// parsing what it assembled gives a message of the same segment with the
/// same bitmap and, field by field, the same values: the values of the
/// fields that went on the wire. Where the message held nothing else,
/// parsing gives the message itself.
pub proof fn lemma_message_round_trip(s: Spec, k: int, st: MsgState)
    requires
        message_ready(s, k, st),
    ensures
        s.messages@[k].bytes_from(st, 0) is Ok,
        s.parse_spec(s.messages@[k].bytes_from(st, 0)->Ok_0) == Ok::<(int, MsgState), Failure>(
            (k, as_parsed(s.messages@[k], st)),
        ),
        agrees(as_parsed(s.messages@[k], st).store, st.store),
        (forall|n: Seq<char>|
            st.store.contains_key(n) ==> #[trigger] as_parsed(s.messages@[k], st).store.contains_key(
                n,
            )) ==> as_parsed(s.messages@[k], st) == st,
{
    let seg = s.messages@[k];
    let none = Map::<Seq<char>, Seq<u8>>::empty();
    lemma_fields_round_trip(seg, st, 0, Seq::<u8>::empty(), none, empty_bitmap());
    let bytes = seg.bytes_from(st, 0)->Ok_0;
    assert(bytes + Seq::<u8>::empty() =~= bytes);
    assert(empty_state() == (MsgState { store: none, bmp: empty_bitmap() }));
    let back = as_parsed(seg, st);
    if forall|n: Seq<char>| st.store.contains_key(n) ==> #[trigger] back.store.contains_key(n) {
        assert(back.store =~= st.store);
    }
}

/// The routing key of a message: the string views of its header values, concatenated.
pub open spec fn header_key(fields: Seq<Field>, m: Map<Seq<char>, Seq<u8>>, i: int) -> Option<
    Seq<char>,
>
    decreases fields.len() - i,
{
    if i < 0 || i >= fields.len() {
        Some(Seq::<char>::empty())
    } else {
        match (fields[i].text_of(m[fields[i].name_view()]), header_key(fields, m, i + 1)) {
            (Some(t), Some(more)) => Some(t + more),
            _ => None,
        }
    }
}

/// Where the header fields are the first fields of the segment, the header
/// parsed off the assembled bytes reads the message's own header values.
pub proof fn lemma_header_of_assembled(
    header: Seq<Field>,
    seg: MessageSegment,
    st: MsgState,
    i: int,
    acc: Map<Seq<char>, Seq<u8>>,
)
    requires
        0 <= i,
        header.len() <= seg.fields@.len(),
        forall|j: int| 0 <= j < header.len() ==> #[trigger] header[j] == seg.fields@[j],
        fields_ready(seg.fields@, st),
        st.bmp.cascaded(),
        agrees(acc, st.store),
        header_key(header, st.store, i) is Some,
    ensures
        seg.bytes_from(st, i) is Ok,
        header_text(header, i, seg.bytes_from(st, i)->Ok_0, acc) == Ok::<Seq<char>, Failure>(
            header_key(header, st.store, i)->Some_0,
        ),
    decreases header.len() - i,
{
    lemma_fields_round_trip(seg, st, i, Seq::<u8>::empty(), acc, empty_bitmap());
    if i >= header.len() {
    } else {
        let f = header[i];
        assert(f == seg.fields@[i]);
        let next = stored(f, st.store, st.bmp, acc);
        lemma_stored_agrees(f, st.store, st.bmp, acc);
        lemma_fields_round_trip(seg, st, i + 1, Seq::<u8>::empty(), next, empty_bitmap());
        let more = seg.bytes_from(st, i + 1)->Ok_0;
        lemma_field_round_trip(f, st.store, st.bmp, more, acc);
        lemma_header_of_assembled(header, seg, st, i + 1, next);
    }
}

/// A way to see that the assembled bytes are routed to the message's own
/// segment: the header fields are the first fields of the segment, and the
/// first segment that the message's header values select is its own.
pub proof fn lemma_routed_by_own_header(s: Spec, k: int, st: MsgState)
    requires
        0 <= k < s.messages@.len(),
        st.bmp.cascaded(),
        fields_ready(s.messages@[k].fields@, st),
        s.header_fields@.len() <= s.messages@[k].fields@.len(),
        forall|j: int|
            0 <= j < s.header_fields@.len() ==> #[trigger] s.header_fields@[j]
                == s.messages@[k].fields@[j],
        header_key(s.header_fields@, st.store, 0) matches Some(key) && segment_for(
            s.messages@,
            key,
            0,
        ) == Some(k),
    ensures
        s.messages@[k].bytes_from(st, 0) matches Ok(bytes) && s.segment_of(bytes) == Ok::<
            int,
            Failure,
        >(k),
{
    lemma_header_of_assembled(
        s.header_fields@,
        s.messages@[k],
        st,
        0,
        Map::<Seq<char>, Seq<u8>>::empty(),
    );
}

/// Whether assembling `f` looks up the name `n`: a fixed or variable field
/// of that name, or a bitmapped field one of whose children has that name
/// or looks it up in turn.
pub open spec fn looks_up(f: Field, n: Seq<char>) -> bool
    decreases f, 0nat,
{
    match f {
        Field::Fixed(x) => x.name@ == n,
        Field::Variable(v) => v.name@ == n,
        Field::Bitmapped(b) => children_look_up(b, n, 0),
    }
}

/// Whether one of the children of `b` from the `i`th on has the name `n` or looks it up.
pub open spec fn children_look_up(b: BmpField, n: Seq<char>, i: int) -> bool
    decreases b, b.children@.len() - i,
{
    if i < 0 || i >= b.children@.len() {
        false
    } else {
        b.children@[i].name_view() == n || looks_up(b.children@[i], n) || children_look_up(
            b,
            n,
            i + 1,
        )
    }
}

proof fn lemma_child_not_looked_up(b: BmpField, n: Seq<char>, from: int, i: int)
    requires
        0 <= from <= i < b.children@.len(),
        !children_look_up(b, n, from),
    ensures
        b.children@[i].name_view() != n,
        !looks_up(b.children@[i], n),
    decreases i - from,
{
    if from < i {
        lemma_child_not_looked_up(b, n, from + 1, i);
    }
}

/// A value under a name that a field does not look up makes no difference
/// to what the field assembles.
pub proof fn lemma_assemble_ignores(
    f: Field,
    m: Map<Seq<char>, Seq<u8>>,
    bmp: Bitmap,
    n: Seq<char>,
    v: Seq<u8>,
)
    requires
        !looks_up(f, n),
    ensures
        f.assemble_spec(m.insert(n, v), bmp) == f.assemble_spec(m, bmp),
    decreases f, 0nat,
{
    match f {
        Field::Fixed(x) => {},
        Field::Variable(x) => {},
        Field::Bitmapped(b) => {
            lemma_children_assemble_ignores(b, m, bmp, n, v, 2);
        },
    }
}

/// A value under a name that no child looks up makes no difference to what
/// the children assemble.
pub proof fn lemma_children_assemble_ignores(
    b: BmpField,
    m: Map<Seq<char>, Seq<u8>>,
    bmp: Bitmap,
    n: Seq<char>,
    v: Seq<u8>,
    p: int,
)
    requires
        !children_look_up(b, n, 0),
    ensures
        b.children_bytes(m.insert(n, v), bmp, p) == b.children_bytes(m, bmp, p),
    decreases b, (193 - p) as nat,
{
    if p < 2 || p > 192 {
    } else if is_indicator(p) || !bmp.on(p) {
        lemma_children_assemble_ignores(b, m, bmp, n, v, p + 1);
    } else {
        match b.position_index(p as u32, 0) {
            None => {},
            Some(i) => {
                if 0 <= i < b.children@.len() {
                    lemma_child_not_looked_up(b, n, 0, i);
                    lemma_assemble_ignores(b.children@[i], m, bmp, n, v);
                    lemma_children_assemble_ignores(b, m, bmp, n, v, p + 1);
                }
            },
        }
    }
}

proof fn lemma_bytes_ignore(seg: MessageSegment, st: MsgState, n: Seq<char>, v: Seq<u8>, i: int)
    requires
        0 <= i,
        forall|j: int| 0 <= j < seg.fields@.len() ==> !looks_up(#[trigger] seg.fields@[j], n),
    ensures
        seg.bytes_from(MsgState { store: st.store.insert(n, v), bmp: st.bmp }, i) == seg.bytes_from(
            st,
            i,
        ),
    decreases seg.fields@.len() - i,
{
    if i < seg.fields@.len() {
        lemma_assemble_ignores(seg.fields@[i], st.store, st.bmp, n, v);
        lemma_bytes_ignore(seg, st, n, v, i + 1);
    }
}

/// The message with the wire form of its bitmap stored under "bitmap", as a parse stores it.
pub open spec fn with_bitmap_stored(st: MsgState) -> MsgState {
    MsgState { store: st.store.insert("bitmap"@, st.bmp.wire()), bmp: st.bmp }
}

/// The round trip of a message as `set` and `set_on` build it, which holds
/// no wire form of its bitmap. Where no field takes its value from the name
/// "bitmap" and the message, given the wire form of its bitmap, is valid for
/// the wire, parsing what it assembles gives the same segment, the same
/// bitmap and, under every name but "bitmap", values that the message holds.
pub proof fn lemma_built_message_round_trip(s: Spec, k: int, st: MsgState)
    requires
        0 <= k < s.messages@.len(),
        forall|j: int|
            0 <= j < s.messages@[k].fields@.len() ==> !looks_up(
                #[trigger] s.messages@[k].fields@[j],
                "bitmap"@,
            ),
        message_ready(s, k, with_bitmap_stored(st)),
    ensures
        s.messages@[k].bytes_from(st, 0) is Ok,
        s.parse_spec(s.messages@[k].bytes_from(st, 0)->Ok_0) == Ok::<(int, MsgState), Failure>(
            (k, as_parsed(s.messages@[k], with_bitmap_stored(st))),
        ),
        as_parsed(s.messages@[k], with_bitmap_stored(st)).bmp == st.bmp,
        forall|n: Seq<char>|
            n != "bitmap"@ && #[trigger] as_parsed(
                s.messages@[k],
                with_bitmap_stored(st),
            ).store.contains_key(n) ==> st.store.contains_key(n) && as_parsed(
                s.messages@[k],
                with_bitmap_stored(st),
            ).store[n] == st.store[n],
{
    let seg = s.messages@[k];
    let full = with_bitmap_stored(st);
    lemma_bytes_ignore(seg, st, "bitmap"@, st.bmp.wire(), 0);
    lemma_message_round_trip(s, k, full);
    let back = as_parsed(seg, full);
    assert forall|n: Seq<char>| n != "bitmap"@ && #[trigger] back.store.contains_key(
        n,
    ) implies st.store.contains_key(n) && back.store[n] == st.store[n] by {
        assert(full.store.contains_key(n) && back.store[n] == full.store[n]);
    }
}

} // verus!
