//! The JSON wire form of the request shapes.
//!
//! A request serializes as a JSON object whose members are exactly its
//! present fields, in declaration order, under the remote API's field names;
//! absent optional fields contribute no member at all. The spec functions
//! here define that rendering character by character, and the executable
//! builders are proved to produce it.

use vstd::prelude::*;

use vstd::string::StrSliceExecFns;
use vstd::string::StringExecFns;

verus! {

/// A response document that does not match the expected schema: a shape or
/// type mismatch, or an unrecognized enumeration token.
#[derive(Clone, Copy, Debug, PartialEq, Eq)]
pub struct DecodeError {}

impl DecodeError {
    pub fn new() -> (r: Self) {
        DecodeError {}
    }
}

/// The hexadecimal digit character for a value below 16.
pub open spec fn hex_digit(n: nat) -> char {
    if n == 0 {
        '0'
    } else if n == 1 {
        '1'
    } else if n == 2 {
        '2'
    } else if n == 3 {
        '3'
    } else if n == 4 {
        '4'
    } else if n == 5 {
        '5'
    } else if n == 6 {
        '6'
    } else if n == 7 {
        '7'
    } else if n == 8 {
        '8'
    } else if n == 9 {
        '9'
    } else if n == 10 {
        'a'
    } else if n == 11 {
        'b'
    } else if n == 12 {
        'c'
    } else if n == 13 {
        'd'
    } else if n == 14 {
        'e'
    } else {
        'f'
    }
}

/// The escape sequence a character contributes inside a JSON string value:
/// quote, backslash and control characters are escaped, every other
/// character stands for itself.
pub open spec fn escape_char(c: char) -> Seq<char> {
    if c == '"' {
        "\\\""@
    } else if c == '\\' {
        "\\\\"@
    } else if c == '\n' {
        "\\n"@
    } else if c == '\r' {
        "\\r"@
    } else if c == '\t' {
        "\\t"@
    } else if c == '\u{08}' {
        "\\b"@
    } else if c == '\u{0C}' {
        "\\f"@
    } else if (c as u32) < 0x20 {
        "\\u00"@ + seq![
            hex_digit(((c as u32) / 16) as nat),
            hex_digit(((c as u32) % 16) as nat),
        ]
    } else {
        seq![c]
    }
}

/// The body of a JSON string value: every character escaped as needed.
pub open spec fn escape_str(s: Seq<char>) -> Seq<char>
    decreases s.len(),
{
    if s.len() == 0 {
        Seq::empty()
    } else {
        escape_str(s.drop_last()) + escape_char(s.last())
    }
}

/// A JSON string value: the escaped body between quotes.
pub open spec fn json_str(s: Seq<char>) -> Seq<char> {
    "\""@ + escape_str(s) + "\""@
}

/// The decimal digit character for a value below 10.
pub open spec fn dec_digit(n: nat) -> char {
    hex_digit(if n < 10 {
        n
    } else {
        0
    })
}

/// The decimal numeral of a non-negative integer.
pub open spec fn dec_digits(n: nat) -> Seq<char>
    decreases n,
{
    if n < 10 {
        seq![dec_digit(n)]
    } else {
        dec_digits(n / 10) + seq![dec_digit(n % 10)]
    }
}

/// A JSON number holding an integer.
pub open spec fn json_int(n: int) -> Seq<char> {
    if n < 0 {
        "-"@ + dec_digits((-n) as nat)
    } else {
        dec_digits(n as nat)
    }
}

/// A JSON boolean.
pub open spec fn json_bool(b: bool) -> Seq<char> {
    if b {
        "true"@
    } else {
        "false"@
    }
}

/// One member of a wire object: the field's wire name and its already
/// rendered JSON value.
#[derive(Clone, Debug)]
pub struct WireField {
    pub name: &'static str,
    pub value: String,
}

impl View for WireField {
    type V = (Seq<char>, Seq<char>);

    open spec fn view(&self) -> (Seq<char>, Seq<char>) {
        (self.name@, self.value@)
    }
}

/// The views of a sequence of wire fields.
pub open spec fn field_views(s: Seq<WireField>) -> Seq<(Seq<char>, Seq<char>)> {
    s.map_values(|f: WireField| f@)
}

/// The member an optional string field contributes: one name-value pair
/// when the field is set, nothing when it is absent.
pub open spec fn opt_str_field(name: Seq<char>, v: Option<String>) -> Seq<(Seq<char>, Seq<char>)> {
    match v {
        Some(s) => seq![(name, json_str(s@))],
        None => Seq::empty(),
    }
}

/// The member an optional integer field contributes.
pub open spec fn opt_i32_field(name: Seq<char>, v: Option<i32>) -> Seq<(Seq<char>, Seq<char>)> {
    match v {
        Some(n) => seq![(name, json_int(n as int))],
        None => Seq::empty(),
    }
}

/// The member an optional boolean field contributes.
pub open spec fn opt_bool_field(name: Seq<char>, v: Option<bool>) -> Seq<(Seq<char>, Seq<char>)> {
    match v {
        Some(b) => seq![(name, json_bool(b))],
        None => Seq::empty(),
    }
}

/// Renders a JSON boolean.
pub fn json_bool_string(b: bool) -> (r: String)
    ensures
        r@ == json_bool(b),
{
    if b {
        "true".to_owned()
    } else {
        "false".to_owned()
    }
}

/// Appends one member to a wire object under construction.
pub(crate) fn push_field(fields: &mut Vec<WireField>, f: WireField)
    ensures
        field_views(final (fields)@) == field_views(old(fields)@) + seq![f@],
{
    fields.push(f);
    proof {
        assert(field_views(fields@) =~= field_views(old(fields)@) + seq![f@]);
    }
}

/// The names of a wire object's members.
pub open spec fn names_of(fs: Seq<(Seq<char>, Seq<char>)>) -> Seq<Seq<char>> {
    fs.map_values(|f: (Seq<char>, Seq<char>)| f.0)
}

/// One rendered member: the quoted name, a colon, the value.
pub open spec fn render_field(f: (Seq<char>, Seq<char>)) -> Seq<char> {
    "\""@ + f.0 + "\":"@ + f.1
}

/// The members joined with commas.
pub open spec fn join_fields(fs: Seq<(Seq<char>, Seq<char>)>) -> Seq<char>
    decreases fs.len(),
{
    if fs.len() == 0 {
        Seq::empty()
    } else if fs.len() == 1 {
        render_field(fs.last())
    } else {
        join_fields(fs.drop_last()) + ","@ + render_field(fs.last())
    }
}

/// A rendered JSON object.
pub open spec fn render_obj(fs: Seq<(Seq<char>, Seq<char>)>) -> Seq<char> {
    "{"@ + join_fields(fs) + "}"@
}

/// The already rendered elements of a JSON array, joined with commas.
pub open spec fn join_elems(es: Seq<Seq<char>>) -> Seq<char>
    decreases es.len(),
{
    if es.len() == 0 {
        Seq::empty()
    } else if es.len() == 1 {
        es.last()
    } else {
        join_elems(es.drop_last()) + ","@ + es.last()
    }
}

/// A rendered JSON array.
pub open spec fn render_arr(es: Seq<Seq<char>>) -> Seq<char> {
    "["@ + join_elems(es) + "]"@
}

/// The views of a sequence of rendered elements.
pub open spec fn elem_views(s: Seq<String>) -> Seq<Seq<char>> {
    s.map_values(|e: String| e@)
}

/// Relies on String::push: appends the given character to the string.
#[verifier::external_body]
pub(crate) fn push_char(s: &mut String, c: char)
    ensures
        final (s)@ == old(s)@.push(c),
{
    s.push(c);
}

/// The hexadecimal digit character for a value below 16.
fn hex_digit_char(n: u8) -> (c: char)
    requires
        n < 16,
    ensures
        c == hex_digit(n as nat),
{
    if n == 0 {
        '0'
    } else if n == 1 {
        '1'
    } else if n == 2 {
        '2'
    } else if n == 3 {
        '3'
    } else if n == 4 {
        '4'
    } else if n == 5 {
        '5'
    } else if n == 6 {
        '6'
    } else if n == 7 {
        '7'
    } else if n == 8 {
        '8'
    } else if n == 9 {
        '9'
    } else if n == 10 {
        'a'
    } else if n == 11 {
        'b'
    } else if n == 12 {
        'c'
    } else if n == 13 {
        'd'
    } else if n == 14 {
        'e'
    } else {
        'f'
    }
}

/// Appends the escaped body of a JSON string value.
fn write_escaped(out: &mut String, s: &str)
    ensures
        final (out)@ == old(out)@ + escape_str(s@),
{
    let n = s.unicode_len();
    let mut i: usize = 0;
    while i < n
        invariant
            n == s@.len(),
            i <= n,
            out@ == old(out)@ + escape_str(s@.take(i as int)),
        decreases n - i,
    {
        let c = s.get_char(i);
        if c == '"' {
            out.append("\\\"");
        } else if c == '\\' {
            out.append("\\\\");
        } else if c == '\n' {
            out.append("\\n");
        } else if c == '\r' {
            out.append("\\r");
        } else if c == '\t' {
            out.append("\\t");
        } else if c == '\u{08}' {
            out.append("\\b");
        } else if c == '\u{0C}' {
            out.append("\\f");
        } else if (c as u32) < 0x20 {
            out.append("\\u00");
            push_char(out, hex_digit_char(((c as u32) / 16) as u8));
            push_char(out, hex_digit_char(((c as u32) % 16) as u8));
        } else {
            push_char(out, c);
        }
        proof {
            assert(s@.take(i + 1).drop_last() =~= s@.take(i as int));
            assert(s@.take(i + 1).last() == s@[i as int]);
            assert(out@ =~= old(out)@ + escape_str(s@.take(i + 1)));
        }
        i += 1;
    }
    proof {
        assert(s@.take(n as int) =~= s@);
    }
}

/// Renders a JSON string value.
pub fn json_string(s: &str) -> (r: String)
    ensures
        r@ == json_str(s@),
{
    let mut out = String::new();
    out.append("\"");
    write_escaped(&mut out, s);
    out.append("\"");
    proof {
        assert(out@ =~= json_str(s@));
    }
    out
}

/// Appends the decimal numeral of a non-negative integer.
fn write_digits(out: &mut String, n: u64)
    ensures
        final (out)@ == old(out)@ + dec_digits(n as nat),
    decreases n,
{
    if n >= 10 {
        write_digits(out, n / 10);
    }
    push_char(out, hex_digit_char((n % 10) as u8));
    proof {
        assert(final (out)@ =~= old(out)@ + dec_digits(n as nat));
    }
}

/// Renders a JSON number holding an integer.
pub fn json_int_string(n: i64) -> (r: String)
    ensures
        r@ == json_int(n as int),
{
    let mut out = String::new();
    if n < 0 {
        out.append("-");
        let wide: i128 = n as i128;
        let mag: u64 = (-wide) as u64;
        proof {
            assert(mag as nat == (-(n as int)) as nat);
        }
        write_digits(&mut out, mag);
    } else {
        write_digits(&mut out, n as u64);
    }
    proof {
        assert(out@ =~= json_int(n as int));
    }
    out
}

/// Renders a JSON object from its members.
pub fn render_object(fields: &Vec<WireField>) -> (r: String)
    ensures
        r@ == render_obj(field_views(fields@)),
{
    let ghost fs = field_views(fields@);
    let mut out = String::new();
    out.append("{");
    let mut i: usize = 0;
    while i < fields.len()
        invariant
            fs == field_views(fields@),
            i <= fields@.len(),
            fs.len() == fields@.len(),
            out@ == "{"@ + join_fields(fs.take(i as int)),
        decreases fields@.len() - i,
    {
        if i > 0 {
            out.append(",");
        }
        out.append("\"");
        out.append(fields[i].name);
        out.append("\":");
        out.append(fields[i].value.as_str());
        proof {
            assert(fs.take(i + 1).drop_last() =~= fs.take(i as int));
            assert(fs.take(i + 1).last() == fs[i as int]);
            assert(out@ =~= "{"@ + join_fields(fs.take(i + 1)));
        }
        i += 1;
    }
    out.append("}");
    proof {
        assert(fs.take(fs.len() as int) =~= fs);
        assert(out@ =~= render_obj(fs));
    }
    out
}

/// Renders a JSON array from its already rendered elements.
pub fn render_array(elems: &Vec<String>) -> (r: String)
    ensures
        r@ == render_arr(elem_views(elems@)),
{
    let ghost es = elem_views(elems@);
    let mut out = String::new();
    out.append("[");
    let mut i: usize = 0;
    while i < elems.len()
        invariant
            es == elem_views(elems@),
            i <= elems@.len(),
            es.len() == elems@.len(),
            out@ == "["@ + join_elems(es.take(i as int)),
        decreases elems@.len() - i,
    {
        if i > 0 {
            out.append(",");
        }
        out.append(elems[i].as_str());
        proof {
            assert(es.take(i + 1).drop_last() =~= es.take(i as int));
            assert(es.take(i + 1).last() == es[i as int]);
            assert(out@ =~= "["@ + join_elems(es.take(i + 1)));
        }
        i += 1;
    }
    out.append("]");
    proof {
        assert(es.take(es.len() as int) =~= es);
        assert(out@ =~= render_arr(es));
    }
    out
}

} // verus!
