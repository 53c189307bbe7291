//! How a message reads as text: one line per field that holds a value.
use crate::hexcodec::hex_text;
use crate::iso8583::bitmap::BmpField;
use crate::iso8583::field::Field;
use crate::iso8583::field::ParseError;
use crate::iso8583::iso_spec::IsoMsg;
use crate::iso8583::store::FieldStore;
use crate::text::push_char;
use vstd::prelude::*;
use vstd::string::StrSliceExecFns;
use vstd::string::StringExecFns;

verus! {

/// `n` spaces.
pub open spec fn spaces(n: nat) -> Seq<char> {
    Seq::new(n, |i: int| ' ')
}

/// `s` cut at 40 characters and filled with spaces up to 20.
pub open spec fn name_column(s: Seq<char>) -> Seq<char> {
    let cut = if s.len() > 40 {
        s.take(40)
    } else {
        s
    };
    if cut.len() < 20 {
        cut + spaces((20 - cut.len()) as nat)
    } else {
        cut
    }
}

/// `s` centred in ten characters; the odd space goes to the right.
pub open spec fn position_column(s: Seq<char>) -> Seq<char> {
    if s.len() >= 10 {
        s
    } else {
        let total = (10 - s.len()) as nat;
        spaces(total / 2) + s + spaces((total - total / 2) as nat)
    }
}

/// The decimal digits of `n`.
pub open spec fn decimal(n: nat) -> Seq<char>
    decreases n,
{
    if n < 10 {
        seq![(48 + n) as char]
    } else {
        decimal(n / 10).push((48 + n % 10) as char)
    }
}

/// A position as the table shows it: three digits or more, zero-padded;
/// nothing for position 0.
pub open spec fn position_text(position: u32) -> Seq<char> {
    if position == 0 {
        Seq::<char>::empty()
    } else if position < 10 {
        seq!['0', '0'] + decimal(position as nat)
    } else if position < 100 {
        seq!['0'] + decimal(position as nat)
    } else {
        decimal(position as nat)
    }
}

/// One line of the table.
pub open spec fn line(name: Seq<char>, position: Seq<char>, value: Seq<char>) -> Seq<char> {
    seq!['\n'] + name_column(name) + seq![' ', ':', ' '] + position_column(position) + seq![
        ' ',
        ' ',
        ':',
        ' ',
    ] + value + seq![' ']
}

/// The value of a field as the table shows it: its string view, or
/// hexadecimal where it has none.
pub open spec fn shown_value(f: Field, data: Seq<u8>) -> Seq<char> {
    match f.text_of(data) {
        Some(t) => t,
        None => hex_text(data),
    }
}

/// The lines of a field and of its children, in declared order; a field
/// without a value has no line.
pub open spec fn lines_of(f: Field, store: Map<Seq<char>, Seq<u8>>) -> Seq<char>
    decreases f, 0nat,
{
    let own = if store.contains_key(f.name_view()) {
        line(
            f.name_view(),
            position_text(f.position_view()),
            shown_value(f, store[f.name_view()]),
        )
    } else {
        Seq::<char>::empty()
    };
    match f {
        Field::Bitmapped(b) => own + child_lines(b, store, 0),
        _ => own,
    }
}

/// The lines of the children of `b` from the `i`th on.
pub open spec fn child_lines(b: BmpField, store: Map<Seq<char>, Seq<u8>>, i: int) -> Seq<char>
    decreases b, b.children@.len() - i,
{
    if i < 0 || i >= b.children@.len() {
        Seq::<char>::empty()
    } else {
        lines_of(b.children@[i], store) + child_lines(b, store, i + 1)
    }
}

/// The lines of the fields from the `i`th on.
pub open spec fn field_lines(fields: Seq<Field>, store: Map<Seq<char>, Seq<u8>>, i: int) -> Seq<
    char,
>
    decreases fields.len() - i,
{
    if i < 0 || i >= fields.len() {
        Seq::<char>::empty()
    } else {
        lines_of(fields[i], store) + field_lines(fields, store, i + 1)
    }
}

/// The heading of the table.
pub open spec fn heading() -> Seq<char> {
    line("-Field-"@, "-Position-"@, "-Field Value-"@)
}

fn push_spaces(s: &mut String, n: usize)
    ensures
        final(s)@ == old(s)@ + spaces(n as nat),
{
    let mut i: usize = 0;
    assert(s@ =~= old(s)@ + spaces(0));
    while i < n
        invariant
            i <= n,
            s@ == old(s)@ + spaces(i as nat),
        decreases n - i,
    {
        push_char(s, ' ');
        assert(s@ =~= old(s)@ + spaces((i + 1) as nat));
        i = i + 1;
    }
}

fn push_decimal(s: &mut String, n: u32)
    ensures
        final(s)@ == old(s)@ + decimal(n as nat),
    decreases n,
{
    if n >= 10 {
        push_decimal(s, n / 10);
    }
    push_char(s, (48 + (n % 10) as u8) as char);
    assert(s@ =~= old(s)@ + decimal(n as nat));
}

fn push_name_column(s: &mut String, name: &str)
    ensures
        final(s)@ == old(s)@ + name_column(name@),
{
    let n = name.unicode_len();
    if n > 40 {
        s.append(name.substring_char(0, 40));
    } else if n < 20 {
        s.append(name);
        push_spaces(s, 20 - n);
        assert(s@ =~= old(s)@ + name_column(name@));
    } else {
        s.append(name);
    }
}

fn push_position_column(s: &mut String, position: &str)
    ensures
        final(s)@ == old(s)@ + position_column(position@),
{
    let p = position.unicode_len();
    if p >= 10 {
        s.append(position);
    } else {
        let total: usize = 10 - p;
        push_spaces(s, total / 2);
        s.append(position);
        push_spaces(s, total - total / 2);
        assert(s@ =~= old(s)@ + position_column(position@));
    }
}

fn push_line(s: &mut String, name: &str, position: &str, value: &str)
    ensures
        final(s)@ == old(s)@ + line(name@, position@, value@),
{
    push_char(s, '\n');
    let ghost s1 = s@;
    push_name_column(s, name);
    let ghost s2 = s@;
    push_char(s, ' ');
    push_char(s, ':');
    push_char(s, ' ');
    let ghost s3 = s@;
    assert(s3 =~= s2 + seq![' ', ':', ' ']);
    push_position_column(s, position);
    let ghost s4 = s@;
    push_char(s, ' ');
    push_char(s, ' ');
    push_char(s, ':');
    push_char(s, ' ');
    let ghost s5 = s@;
    assert(s5 =~= s4 + seq![' ', ' ', ':', ' ']);
    s.append(value);
    push_char(s, ' ');
    assert(s1 =~= old(s)@ + seq!['\n']);
    assert(s@ =~= s5 + value@ + seq![' ']);
    assert(s@ =~= old(s)@ + line(name@, position@, value@));
}

fn push_position(s: &mut String, position: u32)
    ensures
        final(s)@ == old(s)@ + position_text(position),
{
    if position > 0 {
        if position < 10 {
            push_char(s, '0');
            push_char(s, '0');
        } else if position < 100 {
            push_char(s, '0');
        }
        let ghost mid = s@;
        push_decimal(s, position);
        assert(s@ =~= old(s)@ + position_text(position));
    } else {
        assert(s@ =~= old(s)@ + position_text(position));
    }
}

fn push_lines_of(s: &mut String, f: &Field, store: &FieldStore)
    ensures
        final(s)@ == old(s)@ + lines_of(*f, store@),
    decreases f, 0nat,
{
    match store.get(f.name()) {
        Some(data) => {
            let mut pos_str = String::new();
            push_position(&mut pos_str, f.position());
            assert(pos_str@ =~= position_text(f.position_view()));
            let value = match f.to_string(data) {
                Ok(t) => t,
                Err(_) => crate::hexcodec::hex_encode(data.as_slice()),
            };
            push_line(s, f.name().as_str(), pos_str.as_str(), value.as_str());
        },
        None => {
            assert(s@ =~= old(s)@ + Seq::<char>::empty());
        },
    }
    match f {
        Field::Bitmapped(b) => {
            let ghost own = s@;
            push_child_lines(s, b, store);
            assert(s@ =~= old(s)@ + lines_of(*f, store@)) by {
                let kids = child_lines(*b, store@, 0);
                let first = lines_of(*f, store@).take(lines_of(*f, store@).len() - kids.len());
                assert(lines_of(*f, store@) =~= first + kids);
                assert(own =~= old(s)@ + first);
            }
        },
        _ => {},
    }
}

fn push_child_lines(s: &mut String, b: &BmpField, store: &FieldStore)
    ensures
        final(s)@ == old(s)@ + child_lines(*b, store@, 0),
    decreases b, b.children@.len() + 1,
{
    let ghost mut done = Seq::<char>::empty();
    assert(s@ =~= old(s)@ + done);
    let mut i: usize = 0;
    while i < b.children.len()
        invariant
            i <= b.children@.len(),
            s@ == old(s)@ + done,
            child_lines(*b, store@, 0) == done + child_lines(*b, store@, i as int),
        decreases b.children@.len() - i,
    {
        push_lines_of(s, &b.children[i], store);
        proof {
            let more = lines_of(b.children@[i as int], store@);
            let after = child_lines(*b, store@, i as int + 1);
            assert(old(s)@ + (done + more) =~= (old(s)@ + done) + more);
            assert((done + more) + after =~= done + (more + after));
            done = done + more;
        }
        i = i + 1;
    }
    assert(done + Seq::<char>::empty() =~= done);
}

impl IsoMsg {
    /// The message as a table: a heading, then one line for each field of
    /// the segment that holds a value, the children of a bitmapped field
    /// after it, with the field's name, its position and its value.
    pub fn to_string(&self) -> (r: String)
        ensures
            r@ == heading() + field_lines(self.msg.fields@, self.fd_map@, 0),
    {
        let mut res = String::new();
        push_line(&mut res, "-Field-", "-Position-", "-Field Value-");
        let ghost head = res@;
        assert(head =~= heading());
        let ghost mut done = Seq::<char>::empty();
        assert(res@ =~= head + done);
        let mut i: usize = 0;
        while i < self.msg.fields.len()
            invariant
                i <= self.msg.fields@.len(),
                res@ == head + done,
                field_lines(self.msg.fields@, self.fd_map@, 0) == done + field_lines(
                    self.msg.fields@,
                    self.fd_map@,
                    i as int,
                ),
            decreases self.msg.fields@.len() - i,
        {
            push_lines_of(&mut res, &self.msg.fields[i], &self.fd_map);
            proof {
                let more = lines_of(self.msg.fields@[i as int], self.fd_map@);
                let after = field_lines(self.msg.fields@, self.fd_map@, i as int + 1);
                assert(head + (done + more) =~= (head + done) + more);
                assert((done + more) + after =~= done + (more + after));
                done = done + more;
            }
            i = i + 1;
        }
        assert(done + Seq::<char>::empty() =~= done);
        res
    }
}

impl ParseError {
    /// The error in one line.
    pub fn to_string(&self) -> (r: String)
        ensures
            r@ == "(iso8583:: parse-error: "@ + self.msg@ + ")"@,
    {
        let mut r = String::from_str("(iso8583:: parse-error: ");
        r.append(self.msg.as_str());
        r.append(")");
        r
    }
}

} // verus!
