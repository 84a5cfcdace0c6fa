//! The record type and its JSON form.

use vstd::prelude::*;
use vstd::string::*;

verus! {

/// One row of the `helados` table.
#[derive(Clone, Debug, PartialEq, Eq)]
pub struct Helado {
    pub id: Option<i32>,
    pub sabor: String,
    pub stock: String,
}

/// The mathematical value of a record.
pub struct RecordView {
    pub id: Option<i32>,
    pub sabor: Seq<char>,
    pub stock: Seq<char>,
}

impl View for Helado {
    type V = RecordView;

    open spec fn view(&self) -> RecordView {
        RecordView { id: self.id, sabor: self.sabor@, stock: self.stock@ }
    }
}

impl Helado {
    /// A record as a caller submits it: no id yet.
    pub fn new(sabor: String, stock: String) -> (r: Helado)
        ensures
            r.id.is_none(),
            r.sabor@ == sabor@,
            r.stock@ == stock@,
    {
        Helado { id: None, sabor, stock }
    }
}

/// A lowercase hexadecimal digit.
pub open spec fn hex_digit(n: nat) -> char {
    if n < 10 {
        (('0' as nat) + n) as char
    } else {
        (('a' as nat) + n - 10) as char
    }
}

/// How one character stands inside a JSON string: quote and backslash take a
/// backslash, control characters a short escape or `\u00xx`, the rest stay.
pub open spec fn escape_char(c: char) -> Seq<char> {
    if c == '"' {
        seq!['\\', '"']
    } else if c == '\\' {
        seq!['\\', '\\']
    } else if c == '\u{8}' {
        seq!['\\', 'b']
    } else if c == '\t' {
        seq!['\\', 't']
    } else if c == '\n' {
        seq!['\\', 'n']
    } else if c == '\u{c}' {
        seq!['\\', 'f']
    } else if c == '\r' {
        seq!['\\', 'r']
    } else if (c as nat) < 0x20 {
        seq!['\\', 'u', '0', '0', hex_digit((c as nat) / 16), hex_digit((c as nat) % 16)]
    } else {
        seq![c]
    }
}

/// The characters of a text, each escaped.
pub open spec fn escaped(s: Seq<char>) -> Seq<char>
    decreases s.len(),
{
    if s.len() == 0 {
        Seq::empty()
    } else {
        escaped(s.drop_last()) + escape_char(s.last())
    }
}

/// A text as a JSON string literal.
pub open spec fn json_quoted(s: Seq<char>) -> Seq<char> {
    seq!['"'] + escaped(s) + seq!['"']
}

/// The decimal digits of a natural number.
pub open spec fn nat_text(n: nat) -> Seq<char>
    decreases n,
{
    let d = seq![(('0' as nat) + n % 10) as char];
    if n < 10 {
        d
    } else {
        nat_text(n / 10) + d
    }
}

/// An integer in decimal, with a leading minus sign when negative.
pub open spec fn int_text(n: int) -> Seq<char> {
    if n < 0 {
        seq!['-'] + nat_text((-n) as nat)
    } else {
        nat_text(n as nat)
    }
}

/// Relies on serde_json::to_string for a `str`: the text in double quotes,
/// each character escaped by serde_json's escape table. Writing into a `Vec`
/// cannot fail.
#[verifier::external_body]
fn json_quote(s: &str) -> (r: String)
    ensures
        r@ == json_quoted(s@),
{
    serde_json::to_string(s).unwrap_or_default()
}

/// Relies on serde_json::to_string for an `i32`: a JSON number, that is the
/// integer in decimal.
#[verifier::external_body]
fn json_int(n: i32) -> (r: String)
    ensures
        r@ == int_text(n as int),
{
    serde_json::to_string(&n).unwrap_or_default()
}

/// The JSON value of an optional id: `null` when absent.
pub open spec fn id_json(id: Option<i32>) -> Seq<char> {
    match id {
        Some(n) => int_text(n as int),
        None => seq!['n', 'u', 'l', 'l'],
    }
}

/// The JSON object of a record, fields in declaration order.
pub open spec fn record_json_spec(r: RecordView) -> Seq<char> {
    seq!['{', '"', 'i', 'd', '"', ':'] + id_json(r.id) + seq![',', '"', 's', 'a', 'b', 'o', 'r', '"', ':']
        + json_quoted(r.sabor) + seq![',', '"', 's', 't', 'o', 'c', 'k', '"', ':'] + json_quoted(
        r.stock,
    ) + seq!['}']
}

/// The elements of a JSON array, separated by commas.
pub open spec fn joined(items: Seq<Seq<char>>) -> Seq<char>
    decreases items.len(),
{
    if items.len() == 0 {
        Seq::empty()
    } else if items.len() == 1 {
        items[0]
    } else {
        joined(items.drop_last()) + seq![','] + items.last()
    }
}

/// A JSON array of the given elements.
pub open spec fn json_array(items: Seq<Seq<char>>) -> Seq<char> {
    seq!['['] + joined(items) + seq![']']
}

/// The JSON objects of a list of records, in order.
pub open spec fn records_items(rs: Seq<RecordView>) -> Seq<Seq<char>> {
    rs.map_values(|r: RecordView| record_json_spec(r))
}

/// The JSON array of a list of records.
pub open spec fn records_json_spec(rs: Seq<RecordView>) -> Seq<char> {
    json_array(records_items(rs))
}

/// Appends the text of a literal to a string.
fn push_lit(out: &mut String, lit: &str)
    ensures
        final(out)@ == old(out)@ + lit@,
{
    out.append(lit);
}

/// Writes a record as a JSON object.
pub fn record_json(h: &Helado) -> (r: String)
    ensures
        r@ == record_json_spec(h@),
{
    let mut out = String::new();
    let ghost start = out@;
    push_lit(&mut out, "{\"id\":");
    proof {
        reveal_strlit("{\"id\":");
    }
    let ghost a = out@;
    match h.id {
        Some(n) => {
            let t = json_int(n);
            out.append(t.as_str());
        },
        None => {
            push_lit(&mut out, "null");
            proof {
                reveal_strlit("null");
            }
        },
    }
    let ghost b = out@;
    push_lit(&mut out, ",\"sabor\":");
    proof {
        reveal_strlit(",\"sabor\":");
    }
    let q = json_quote(h.sabor.as_str());
    out.append(q.as_str());
    push_lit(&mut out, ",\"stock\":");
    proof {
        reveal_strlit(",\"stock\":");
    }
    let q2 = json_quote(h.stock.as_str());
    out.append(q2.as_str());
    push_lit(&mut out, "}");
    proof {
        reveal_strlit("}");
    }
    assert(out@ =~= record_json_spec(h@));
    out
}

/// Writes a list of records as a JSON array, in the order given.
pub fn records_json(rows: &Vec<Helado>) -> (r: String)
    ensures
        r@ == records_json_spec(rows@.map_values(|h: Helado| h@)),
        records_items(rows@.map_values(|h: Helado| h@)).len() == rows@.len(),
{
    let ghost views = rows@.map_values(|h: Helado| h@);
    let ghost items = records_items(views);
    let mut body = String::new();
    let mut i: usize = 0;
    while i < rows.len()
        invariant
            0 <= i <= rows@.len(),
            views == rows@.map_values(|h: Helado| h@),
            items == records_items(views),
            body@ == joined(items.subrange(0, i as int)),
        decreases rows@.len() - i,
    {
        if i > 0 {
            push_lit(&mut body, ",");
            proof {
                reveal_strlit(",");
            }
        }
        let item = record_json(&rows[i]);
        body.append(item.as_str());
        proof {
            let s = items.subrange(0, i + 1);
            assert(s.drop_last() =~= items.subrange(0, i as int));
            assert(s.last() == item@);
            if i == 0 {
                assert(s.len() == 1);
                assert(joined(items.subrange(0, 0)) =~= Seq::<char>::empty());
            }
        }
        i = i + 1;
    }
    let mut out = String::new();
    push_lit(&mut out, "[");
    out.append(body.as_str());
    push_lit(&mut out, "]");
    proof {
        reveal_strlit("[");
        reveal_strlit("]");
        assert(items.subrange(0, rows@.len() as int) =~= items);
    }
    assert(out@ =~= records_json_spec(views));
    out
}

} // verus!
