//! Decoding of a message's JSON wire form.
//!
//! The spec functions here define the accepted grammar character by
//! character; `Message::from_json` is proved to return exactly what that
//! grammar yields. A document whose shape does not match the schema — a type
//! mismatch, a member outside the schema, or malformed JSON — is a decoding
//! error, never a silent fallback.

use vstd::prelude::*;

use vstd::string::StrSliceExecFns;

use crate::sms::{
    DeliveryTime, DeliveryTimeWindow, Destination, IndiaDlt, Message, RegionalOptions, TurkeyIys,
};
use crate::validation::eq_token;
use crate::wire::{push_char, DecodeError};

verus! {

/// The mathematical model of a destination: its fields as sequences.
pub struct DestinationModel {
    pub message_id: Option<Seq<char>>,
    pub to: Seq<char>,
}

impl View for Destination {
    type V = DestinationModel;

    open spec fn view(&self) -> DestinationModel {
        DestinationModel {
            message_id: match self.message_id {
                Some(m) => Some(m@),
                None => None,
            },
            to: self.to@,
        }
    }
}

/// The models of a sequence of destinations.
pub open spec fn destination_models(s: Seq<Destination>) -> Seq<DestinationModel> {
    s.map_values(|d: Destination| d@)
}

/// Whether the character is JSON whitespace.
pub open spec fn is_json_ws(c: char) -> bool {
    c == ' ' || c == '\n' || c == '\t' || c == '\r'
}

/// The first position at or after `i` that does not hold whitespace.
pub open spec fn ws_end(s: Seq<char>, i: int) -> int
    decreases s.len() - i,
{
    if 0 <= i < s.len() && is_json_ws(s[i]) {
        ws_end(s, i + 1)
    } else {
        i
    }
}

/// The body of a JSON string value from position `i`, the opening quote
/// already consumed: the decoded characters and the position after the
/// closing quote. Escapes cover the named JSON escapes and `\u` with a
/// non-surrogate code point.
pub open spec fn parse_string_body(s: Seq<char>, i: int, acc: Seq<char>) -> Option<
    (Seq<char>, int),
>
    decreases s.len() - i,
{
    if i < 0 || i >= s.len() {
        None
    } else if s[i] == '"' {
        Some((acc, i + 1))
    } else if s[i] == '\\' {
        if i + 1 >= s.len() {
            None
        } else {
            let e = s[i + 1];
            if e == '"' {
                parse_string_body(s, i + 2, acc.push('"'))
            } else if e == '\\' {
                parse_string_body(s, i + 2, acc.push('\\'))
            } else if e == '/' {
                parse_string_body(s, i + 2, acc.push('/'))
            } else if e == 'n' {
                parse_string_body(s, i + 2, acc.push('\n'))
            } else if e == 'r' {
                parse_string_body(s, i + 2, acc.push('\r'))
            } else if e == 't' {
                parse_string_body(s, i + 2, acc.push('\t'))
            } else if e == 'b' {
                parse_string_body(s, i + 2, acc.push('\u{08}'))
            } else if e == 'f' {
                parse_string_body(s, i + 2, acc.push('\u{0C}'))
            } else if e == 'u' {
                if i + 6 <= s.len() && is_hex(s[i + 2]) && is_hex(s[i + 3]) && is_hex(s[i + 4])
                    && is_hex(s[i + 5]) {
                    let code = hex_val(s[i + 2]) * 4096 + hex_val(s[i + 3]) * 256 + hex_val(
                        s[i + 4],
                    ) * 16 + hex_val(s[i + 5]);
                    if 0xD800 <= code < 0xE000 {
                        None
                    } else {
                        parse_string_body(s, i + 6, acc.push(code as u32 as char))
                    }
                } else {
                    None
                }
            } else {
                None
            }
        }
    } else if (s[i] as u32) < 0x20 {
        None
    } else {
        parse_string_body(s, i + 1, acc.push(s[i]))
    }
}

/// A JSON string value at position `i`: its decoded characters and the
/// position after the closing quote.
pub open spec fn parse_string(s: Seq<char>, i: int) -> Option<(Seq<char>, int)> {
    if 0 <= i < s.len() && s[i] == '"' {
        parse_string_body(s, i + 1, Seq::empty())
    } else {
        None
    }
}

/// Whether the character is a hexadecimal digit.
pub open spec fn is_hex(c: char) -> bool {
    ('0' <= c && c <= '9') || ('a' <= c && c <= 'f') || ('A' <= c && c <= 'F')
}

/// The value of a hexadecimal digit.
pub open spec fn hex_val(c: char) -> int {
    if '0' <= c && c <= '9' {
        c as int - '0' as int
    } else if 'a' <= c && c <= 'f' {
        c as int - 'a' as int + 10
    } else {
        c as int - 'A' as int + 10
    }
}

/// Relies on char::from_u32: yields the character with the given code
/// point; the caller excludes surrogates, on which from_u32 returns None.
#[verifier::external_body]
fn char_from_code(code: u32) -> (r: char)
    requires
        code < 0xD800 || (0xE000 <= code && code < 0x110000),
    ensures
        r == code as char,
{
    char::from_u32(code).unwrap()
}

/// The value of a hexadecimal digit character.
fn hex_val_of(c: char) -> (v: u32)
    requires
        is_hex(c),
    ensures
        v as int == hex_val(c),
        v < 16,
{
    if '0' <= c && c <= '9' {
        (c as u32) - ('0' as u32)
    } else if 'a' <= c && c <= 'f' {
        (c as u32) - ('a' as u32) + 10
    } else {
        (c as u32) - ('A' as u32) + 10
    }
}

/// Skips to the end of a whitespace run.
fn skip_ws(s: &str, n: usize, i: usize) -> (r: usize)
    requires
        n == s@.len(),
        i <= n,
    ensures
        r as int == ws_end(s@, i as int),
        i <= r <= n,
{
    let mut j = i;
    loop
        invariant
            n == s@.len(),
            i <= j <= n,
            ws_end(s@, i as int) == ws_end(s@, j as int),
        decreases n - j,
    {
        if j >= n {
            return j;
        }
        let c = s.get_char(j);
        if !(c == ' ' || c == '\n' || c == '\t' || c == '\r') {
            return j;
        }
        j += 1;
    }
}

/// Parses a JSON string value at position `i`.
fn parse_string_at(s: &str, n: usize, i: usize) -> (r: Option<(String, usize)>)
    requires
        n == s@.len(),
        i <= n,
    ensures
        r matches Some(p) ==> parse_string(s@, i as int) == Some((p.0@, p.1 as int)) && i < p.1
            <= n,
        r is None ==> parse_string(s@, i as int) is None,
{
    if i >= n {
        return None;
    }
    if s.get_char(i) != '"' {
        return None;
    }
    let mut acc = String::new();
    let mut j = i + 1;
    loop
        invariant
            n == s@.len(),
            i < n,
            s@[i as int] == '"',
            i < j <= n,
            parse_string_body(s@, (i + 1) as int, Seq::empty()) == parse_string_body(
                s@,
                j as int,
                acc@,
            ),
        decreases n - j,
    {
        let ghost gj = j as int;
        let ghost ga = acc@;
        if j >= n {
            return None;
        }
        let c = s.get_char(j);
        if c == '"' {
            proof {
                assert(parse_string_body(s@, gj, ga) == Some((ga, gj + 1)));
            }
            return Some((acc, j + 1));
        } else if c == '\\' {
            if j + 1 >= n {
                return None;
            }
            let e = s.get_char(j + 1);
            if e == '"' {
                push_char(&mut acc, '"');
                j += 2;
            } else if e == '\\' {
                push_char(&mut acc, '\\');
                j += 2;
            } else if e == '/' {
                push_char(&mut acc, '/');
                j += 2;
            } else if e == 'n' {
                push_char(&mut acc, '\n');
                j += 2;
            } else if e == 'r' {
                push_char(&mut acc, '\r');
                j += 2;
            } else if e == 't' {
                push_char(&mut acc, '\t');
                j += 2;
            } else if e == 'b' {
                push_char(&mut acc, '\u{08}');
                j += 2;
            } else if e == 'f' {
                push_char(&mut acc, '\u{0C}');
                j += 2;
            } else if e == 'u' {
                if n - j < 6 {
                    return None;
                }
                let h1 = s.get_char(j + 2);
                let h2 = s.get_char(j + 3);
                let h3 = s.get_char(j + 4);
                let h4 = s.get_char(j + 5);
                let hex_ok = (('0' <= h1 && h1 <= '9') || ('a' <= h1 && h1 <= 'f') || ('A' <= h1
                    && h1 <= 'F')) && (('0' <= h2 && h2 <= '9') || ('a' <= h2 && h2 <= 'f') || ('A'
                    <= h2 && h2 <= 'F')) && (('0' <= h3 && h3 <= '9') || ('a' <= h3 && h3 <= 'f')
                    || ('A' <= h3 && h3 <= 'F')) && (('0' <= h4 && h4 <= '9') || ('a' <= h4 && h4
                    <= 'f') || ('A' <= h4 && h4 <= 'F'));
                if !hex_ok {
                    return None;
                }
                let code: u32 = hex_val_of(h1) * 4096 + hex_val_of(h2) * 256 + hex_val_of(h3) * 16
                    + hex_val_of(h4);
                if 0xD800 <= code && code < 0xE000 {
                    return None;
                }
                let decoded = char_from_code(code);
                push_char(&mut acc, decoded);
                j += 6;
                proof {
                    assert(parse_string_body(s@, gj, ga) == parse_string_body(s@, j as int, acc@));
                }
            } else {
                return None;
            }
        } else if (c as u32) < 0x20 {
            return None;
        } else {
            push_char(&mut acc, c);
            j += 1;
        }
        proof {
            assert(parse_string_body(s@, gj, ga) == parse_string_body(s@, j as int, acc@));
        }
    }
}

/// The sequences of an optional string.
pub open spec fn opt_chars(v: Option<String>) -> Option<Seq<char>> {
    match v {
        Some(s) => Some(s@),
        None => None,
    }
}

/// The mathematical model of a delivery window.
pub struct WindowModel {
    pub days: Seq<crate::sms::DeliveryDay>,
    pub from: Option<DeliveryTime>,
    pub to: Option<DeliveryTime>,
}

impl View for DeliveryTimeWindow {
    type V = WindowModel;

    open spec fn view(&self) -> WindowModel {
        WindowModel { days: self.days@, from: self.from, to: self.to }
    }
}

/// The mathematical model of the Indian registry identifiers.
pub struct IndiaDltModel {
    pub content_template_id: Option<Seq<char>>,
    pub principal_entity_id: Seq<char>,
}

impl View for IndiaDlt {
    type V = IndiaDltModel;

    open spec fn view(&self) -> IndiaDltModel {
        IndiaDltModel {
            content_template_id: opt_chars(self.content_template_id),
            principal_entity_id: self.principal_entity_id@,
        }
    }
}

/// The mathematical model of the Turkish registry classification.
pub struct TurkeyIysModel {
    pub brand_code: Option<i32>,
    pub recipient_type: Seq<char>,
}

impl View for TurkeyIys {
    type V = TurkeyIysModel;

    open spec fn view(&self) -> TurkeyIysModel {
        TurkeyIysModel { brand_code: self.brand_code, recipient_type: self.recipient_type@ }
    }
}

/// The mathematical model of the regional options.
pub struct RegionalModel {
    pub india_dlt: Option<IndiaDltModel>,
    pub turkey_iys: Option<TurkeyIysModel>,
}

impl View for RegionalOptions {
    type V = RegionalModel;

    open spec fn view(&self) -> RegionalModel {
        RegionalModel {
            india_dlt: match self.india_dlt {
                Some(d) => Some(d@),
                None => None,
            },
            turkey_iys: match self.turkey_iys {
                Some(t) => Some(t@),
                None => None,
            },
        }
    }
}

/// The mathematical model of a message.
pub struct MessageModel {
    pub destinations: Seq<DestinationModel>,
    pub from: Option<Seq<char>>,
    pub text: Option<Seq<char>>,
    pub callback_data: Option<Seq<char>>,
    pub delivery_time_window: Option<WindowModel>,
    pub notify_url: Option<Seq<char>>,
    pub regional: Option<RegionalModel>,
    pub transliteration: Option<Seq<char>>,
}

impl View for Message {
    type V = MessageModel;

    open spec fn view(&self) -> MessageModel {
        MessageModel {
            destinations: destination_models(self.destinations@),
            from: opt_chars(self.from),
            text: opt_chars(self.text),
            callback_data: opt_chars(self.callback_data),
            delivery_time_window: match self.delivery_time_window {
                Some(w) => Some(w@),
                None => None,
            },
            notify_url: opt_chars(self.notify_url),
            regional: match self.regional {
                Some(r) => Some(r@),
                None => None,
            },
            transliteration: opt_chars(self.transliteration),
        }
    }
}

/// The members of a destination object, one per recursion step: the model
/// accumulated so far, whether the required recipient has been seen, and the
/// position after the closing brace. A member outside the schema is a
/// decoding error. The fuel bounds the member count; every member takes at
/// least one character, so a fuel of the document's length never runs out.
pub open spec fn parse_destination_members(
    s: Seq<char>,
    i: int,
    m: DestinationModel,
    have_to: bool,
    fuel: nat,
) -> Option<((DestinationModel, bool), int)>
    decreases fuel,
{
    if fuel == 0 {
        None
    } else {
        match parse_string(s, i) {
            Some((key, j)) => {
                let j2 = ws_end(s, j);
                if j2 < s.len() && s[j2] == ':' {
                    let j3 = ws_end(s, j2 + 1);
                    let stepped: Option<(DestinationModel, bool, int)> = if key == "messageId"@ {
                        match parse_string(s, j3) {
                            Some((v, k)) => Some(
                                (DestinationModel { message_id: Some(v), ..m }, have_to, k),
                            ),
                            None => None,
                        }
                    } else if key == "to"@ {
                        match parse_string(s, j3) {
                            Some((v, k)) => Some((DestinationModel { to: v, ..m }, true, k)),
                            None => None,
                        }
                    } else {
                        None
                    };
                    match stepped {
                        Some((m2, h2, k)) => {
                            let k2 = ws_end(s, k);
                            if k2 < s.len() && s[k2] == ',' {
                                parse_destination_members(
                                    s,
                                    ws_end(s, k2 + 1),
                                    m2,
                                    h2,
                                    (fuel - 1) as nat,
                                )
                            } else if k2 < s.len() && s[k2] == '}' {
                                Some(((m2, h2), k2 + 1))
                            } else {
                                None
                            }
                        },
                        None => None,
                    }
                } else {
                    None
                }
            },
            None => None,
        }
    }
}

/// A destination object at position `i`. The recipient member is required.
pub open spec fn parse_destination(s: Seq<char>, i: int) -> Option<(DestinationModel, int)> {
    if 0 <= i < s.len() && s[i] == '{' {
        let j = ws_end(s, i + 1);
        if j < s.len() && s[j] == '}' {
            None
        } else {
            match parse_destination_members(
                s,
                j,
                DestinationModel { message_id: None, to: Seq::empty() },
                false,
                s.len() + 1,
            ) {
                Some(((m, have_to), k)) => if have_to {
                    Some((m, k))
                } else {
                    None
                },
                None => None,
            }
        }
    } else {
        None
    }
}

/// Parses a destination object at position `i`.
fn parse_destination_at(s: &str, n: usize, i: usize) -> (r: Option<(Destination, usize)>)
    requires
        n == s@.len(),
        i <= n,
    ensures
        r matches Some(p) ==> parse_destination(s@, i as int) == Some((p.0@, p.1 as int)) && i
            < p.1 <= n,
        r is None ==> parse_destination(s@, i as int) is None,
{
    if i >= n {
        return None;
    }
    if s.get_char(i) != '{' {
        return None;
    }
    let j0 = skip_ws(s, n, i + 1);
    if j0 >= n {
        proof {
            assert(parse_destination_members(
                s@,
                j0 as int,
                DestinationModel { message_id: None, to: Seq::empty() },
                false,
                s@.len() + 1,
            ) is None);
        }
        return None;
    }
    if s.get_char(j0) == '}' {
        return None;
    }
    let ghost fuel0 = s@.len() + 1;
    let mut d = Destination { message_id: None, to: String::new() };
    let mut have_to = false;
    let mut j = j0;
    let ghost mut fuel = fuel0;
    proof {
        assert(d@ == DestinationModel { message_id: None, to: Seq::empty() });
    }
    loop
        invariant
            n == s@.len(),
            i < n,
            s@[i as int] == '{',
            ws_end(s@, i as int + 1) == j0 as int,
            j0 < n,
            s@[j0 as int] != '}',
            fuel0 == s@.len() + 1,
            i < j0,
            j0 <= j <= n,
            fuel >= n - j + 1,
            parse_destination_members(
                s@,
                j0 as int,
                DestinationModel { message_id: None, to: Seq::empty() },
                false,
                fuel0,
            ) == parse_destination_members(s@, j as int, d@, have_to, fuel),
        decreases n - j,
    {
        let ghost gj = j as int;
        let ghost gm = d@;
        let ghost gh = have_to;
        let ghost gf = fuel;
        let key_parse = parse_string_at(s, n, j);
        match key_parse {
            Some((key, j2raw)) => {
                let j2 = skip_ws(s, n, j2raw);
                if j2 >= n {
                    proof {
                        assert(parse_destination_members(s@, gj, gm, gh, gf) is None);
                    }
                    return None;
                }
                if s.get_char(j2) != ':' {
                    proof {
                        assert(parse_destination_members(s@, gj, gm, gh, gf) is None);
                    }
                    return None;
                }
                let j3 = skip_ws(s, n, j2 + 1);
                let k: usize;
                if eq_token(&key, "messageId") {
                    match parse_string_at(s, n, j3) {
                        Some((v, kk)) => {
                            d.message_id = Some(v);
                            k = kk;
                        },
                        None => {
                            proof {
                                assert(parse_destination_members(s@, gj, gm, gh, gf) is None);
                            }
                            return None;
                        },
                    }
                } else if eq_token(&key, "to") {
                    match parse_string_at(s, n, j3) {
                        Some((v, kk)) => {
                            d.to = v;
                            have_to = true;
                            k = kk;
                        },
                        None => {
                            proof {
                                assert(parse_destination_members(s@, gj, gm, gh, gf) is None);
                            }
                            return None;
                        },
                    }
                } else {
                    proof {
                        assert(parse_destination_members(s@, gj, gm, gh, gf) is None);
                    }
                    return None;
                }
                let k2 = skip_ws(s, n, k);
                if k2 < n {
                    let c = s.get_char(k2);
                    if c == ',' {
                        j = skip_ws(s, n, k2 + 1);
                        proof {
                            fuel = (gf - 1) as nat;
                            assert(parse_destination_members(s@, gj, gm, gh, gf)
                                == parse_destination_members(s@, j as int, d@, have_to, fuel));
                        }
                    } else if c == '}' {
                        proof {
                            assert(parse_destination_members(s@, gj, gm, gh, gf) == Some(
                                ((d@, have_to), k2 + 1),
                            ));
                        }
                        if have_to {
                            return Some((d, k2 + 1));
                        } else {
                            return None;
                        }
                    } else {
                        proof {
                            assert(parse_destination_members(s@, gj, gm, gh, gf) is None);
                        }
                        return None;
                    }
                } else {
                    proof {
                        assert(parse_destination_members(s@, gj, gm, gh, gf) is None);
                    }
                    return None;
                }
            },
            None => {
                proof {
                    assert(parse_destination_members(s@, gj, gm, gh, gf) is None);
                }
                return None;
            },
        }
    }
}

/// The elements of a destination array, one per recursion step.
pub open spec fn parse_destinations_elems(
    s: Seq<char>,
    i: int,
    acc: Seq<DestinationModel>,
    fuel: nat,
) -> Option<(Seq<DestinationModel>, int)>
    decreases fuel,
{
    if fuel == 0 {
        None
    } else {
        match parse_destination(s, i) {
            Some((d, k)) => {
                let k2 = ws_end(s, k);
                if k2 < s.len() && s[k2] == ',' {
                    parse_destinations_elems(s, ws_end(s, k2 + 1), acc.push(d), (fuel - 1) as nat)
                } else if k2 < s.len() && s[k2] == ']' {
                    Some((acc.push(d), k2 + 1))
                } else {
                    None
                }
            },
            None => None,
        }
    }
}

/// A destination array at position `i`; it may be empty (validation, not
/// decoding, demands a recipient).
pub open spec fn parse_destinations(s: Seq<char>, i: int) -> Option<(Seq<DestinationModel>, int)> {
    if 0 <= i < s.len() && s[i] == '[' {
        let j = ws_end(s, i + 1);
        if j < s.len() && s[j] == ']' {
            Some((Seq::empty(), j + 1))
        } else {
            parse_destinations_elems(s, j, Seq::empty(), s.len() + 1)
        }
    } else {
        None
    }
}

/// Parses a destination array at position `i`.
fn parse_destinations_at(s: &str, n: usize, i: usize) -> (r: Option<(Vec<Destination>, usize)>)
    requires
        n == s@.len(),
        i <= n,
    ensures
        r matches Some(p) ==> parse_destinations(s@, i as int) == Some(
            (destination_models(p.0@), p.1 as int),
        ) && i < p.1 <= n,
        r is None ==> parse_destinations(s@, i as int) is None,
{
    if i >= n {
        return None;
    }
    if s.get_char(i) != '[' {
        return None;
    }
    let j0 = skip_ws(s, n, i + 1);
    let mut acc: Vec<Destination> = Vec::new();
    proof {
        assert(destination_models(acc@) =~= Seq::<DestinationModel>::empty());
    }
    if j0 < n && s.get_char(j0) == ']' {
        return Some((acc, j0 + 1));
    }
    let ghost fuel0 = s@.len() + 1;
    let mut j = j0;
    let ghost mut fuel = fuel0;
    loop
        invariant
            n == s@.len(),
            i < n,
            s@[i as int] == '[',
            ws_end(s@, i as int + 1) == j0 as int,
            !(j0 < n && s@[j0 as int] == ']'),
            fuel0 == s@.len() + 1,
            i < j0,
            j0 <= j <= n,
            fuel >= n - j + 1,
            parse_destinations_elems(s@, j0 as int, Seq::empty(), fuel0)
                == parse_destinations_elems(s@, j as int, destination_models(acc@), fuel),
        decreases n - j,
    {
        let ghost gj = j as int;
        let ghost ga = destination_models(acc@);
        let ghost gf = fuel;
        match parse_destination_at(s, n, j) {
            Some((d, k)) => {
                let ghost prev = destination_models(acc@);
                let ghost dm = d@;
                acc.push(d);
                proof {
                    assert(destination_models(acc@) =~= prev.push(dm));
                }
                let k2 = skip_ws(s, n, k);
                if k2 < n {
                    let c = s.get_char(k2);
                    if c == ',' {
                        j = skip_ws(s, n, k2 + 1);
                        proof {
                            fuel = (gf - 1) as nat;
                            assert(parse_destinations_elems(s@, gj, ga, gf)
                                == parse_destinations_elems(
                                s@,
                                j as int,
                                destination_models(acc@),
                                fuel,
                            ));
                        }
                    } else if c == ']' {
                        proof {
                            assert(parse_destinations_elems(s@, gj, ga, gf) == Some(
                                (destination_models(acc@), k2 + 1),
                            ));
                        }
                        return Some((acc, k2 + 1));
                    } else {
                        proof {
                            assert(parse_destinations_elems(s@, gj, ga, gf) is None);
                        }
                        return None;
                    }
                } else {
                    proof {
                        assert(parse_destinations_elems(s@, gj, ga, gf) is None);
                    }
                    return None;
                }
            },
            None => {
                proof {
                    assert(parse_destinations_elems(s@, gj, ga, gf) is None);
                }
                return None;
            },
        }
    }
}

/// The members of a message object, one per recursion step: the model
/// accumulated so far, whether the required destinations have been seen, and
/// the position after the closing brace. A member outside the schema is a
/// decoding error.
pub open spec fn parse_message_members(
    s: Seq<char>,
    i: int,
    m: MessageModel,
    have_dest: bool,
    fuel: nat,
) -> Option<((MessageModel, bool), int)>
    decreases fuel,
{
    if fuel == 0 {
        None
    } else {
        match parse_string(s, i) {
            Some((key, j)) => {
                let j2 = ws_end(s, j);
                if j2 < s.len() && s[j2] == ':' {
                    let j3 = ws_end(s, j2 + 1);
                    let stepped: Option<(MessageModel, bool, int)> = if key == "destinations"@ {
                        match parse_destinations(s, j3) {
                            Some((ds, k)) => Some(
                                (MessageModel { destinations: ds, ..m }, true, k),
                            ),
                            None => None,
                        }
                    } else if key == "from"@ {
                        match parse_string(s, j3) {
                            Some((v, k)) => Some((MessageModel { from: Some(v), ..m }, have_dest, k)),
                            None => None,
                        }
                    } else if key == "text"@ {
                        match parse_string(s, j3) {
                            Some((v, k)) => Some((MessageModel { text: Some(v), ..m }, have_dest, k)),
                            None => None,
                        }
                    } else if key == "callbackData"@ {
                        match parse_string(s, j3) {
                            Some((v, k)) => Some(
                                (MessageModel { callback_data: Some(v), ..m }, have_dest, k),
                            ),
                            None => None,
                        }
                    } else if key == "notifyUrl"@ {
                        match parse_string(s, j3) {
                            Some((v, k)) => Some(
                                (MessageModel { notify_url: Some(v), ..m }, have_dest, k),
                            ),
                            None => None,
                        }
                    } else if key == "transliteration"@ {
                        match parse_string(s, j3) {
                            Some((v, k)) => Some(
                                (MessageModel { transliteration: Some(v), ..m }, have_dest, k),
                            ),
                            None => None,
                        }
                    } else {
                        None
                    };
                    match stepped {
                        Some((m2, h2, k)) => {
                            let k2 = ws_end(s, k);
                            if k2 < s.len() && s[k2] == ',' {
                                parse_message_members(s, ws_end(s, k2 + 1), m2, h2, (fuel - 1) as nat)
                            } else if k2 < s.len() && s[k2] == '}' {
                                Some(((m2, h2), k2 + 1))
                            } else {
                                None
                            }
                        },
                        None => None,
                    }
                } else {
                    None
                }
            },
            None => None,
        }
    }
}

/// The model a message object starts from: everything absent.
pub open spec fn empty_message_model() -> MessageModel {
    MessageModel {
        destinations: Seq::empty(),
        from: None,
        text: None,
        callback_data: None,
        delivery_time_window: None,
        notify_url: None,
        regional: None,
        transliteration: None,
    }
}

/// A message object at position `i`. The destinations member is required.
pub open spec fn parse_message(s: Seq<char>, i: int) -> Option<(MessageModel, int)> {
    if 0 <= i < s.len() && s[i] == '{' {
        let j = ws_end(s, i + 1);
        if j < s.len() && s[j] == '}' {
            None
        } else {
            match parse_message_members(s, j, empty_message_model(), false, s.len() + 1) {
                Some(((m, have_dest), k)) => if have_dest {
                    Some((m, k))
                } else {
                    None
                },
                None => None,
            }
        }
    } else {
        None
    }
}

/// A whole message document: the message object surrounded by nothing but
/// whitespace.
pub open spec fn message_from_json_spec(s: Seq<char>) -> Option<MessageModel> {
    match parse_message(s, ws_end(s, 0)) {
        Some((m, j)) => if ws_end(s, j) == s.len() {
            Some(m)
        } else {
            None
        },
        None => None,
    }
}

/// Parses a message object at position `i`.
fn parse_message_at(s: &str, n: usize, i: usize) -> (r: Option<(Message, usize)>)
    requires
        n == s@.len(),
        i <= n,
    ensures
        r matches Some(p) ==> parse_message(s@, i as int) == Some((p.0@, p.1 as int)) && i < p.1
            <= n,
        r is None ==> parse_message(s@, i as int) is None,
{
    if i >= n {
        return None;
    }
    if s.get_char(i) != '{' {
        return None;
    }
    let j0 = skip_ws(s, n, i + 1);
    if j0 >= n {
        proof {
            assert(parse_message_members(s@, j0 as int, empty_message_model(), false, s@.len() + 1)
                is None);
        }
        return None;
    }
    if s.get_char(j0) == '}' {
        return None;
    }
    let ghost fuel0 = s@.len() + 1;
    let mut msg = Message {
        destinations: Vec::new(),
        from: None,
        text: None,
        callback_data: None,
        delivery_time_window: None,
        notify_url: None,
        regional: None,
        transliteration: None,
    };
    let mut have_dest = false;
    let mut j = j0;
    let ghost mut fuel = fuel0;
    proof {
        assert(destination_models(Seq::<Destination>::empty()) =~= Seq::<DestinationModel>::empty());
        assert(msg@ == empty_message_model());
    }
    loop
        invariant
            n == s@.len(),
            i < n,
            s@[i as int] == '{',
            ws_end(s@, i as int + 1) == j0 as int,
            j0 < n,
            s@[j0 as int] != '}',
            fuel0 == s@.len() + 1,
            i < j0,
            j0 <= j <= n,
            fuel >= n - j + 1,
            parse_message_members(s@, j0 as int, empty_message_model(), false, fuel0)
                == parse_message_members(s@, j as int, msg@, have_dest, fuel),
        decreases n - j,
    {
        let ghost gj = j as int;
        let ghost gm = msg@;
        let ghost gh = have_dest;
        let ghost gf = fuel;
        match parse_string_at(s, n, j) {
            Some((key, j2raw)) => {
                let j2 = skip_ws(s, n, j2raw);
                if j2 >= n {
                    proof {
                        assert(parse_message_members(s@, gj, gm, gh, gf) is None);
                    }
                    return None;
                }
                if s.get_char(j2) != ':' {
                    proof {
                        assert(parse_message_members(s@, gj, gm, gh, gf) is None);
                    }
                    return None;
                }
                let j3 = skip_ws(s, n, j2 + 1);
                let k: usize;
                if eq_token(&key, "destinations") {
                    match parse_destinations_at(s, n, j3) {
                        Some((ds, kk)) => {
                            msg.destinations = ds;
                            have_dest = true;
                            k = kk;
                        },
                        None => {
                            proof {
                                assert(parse_message_members(s@, gj, gm, gh, gf) is None);
                            }
                            return None;
                        },
                    }
                } else if eq_token(&key, "from") {
                    match parse_string_at(s, n, j3) {
                        Some((v, kk)) => {
                            msg.from = Some(v);
                            k = kk;
                        },
                        None => {
                            proof {
                                assert(parse_message_members(s@, gj, gm, gh, gf) is None);
                            }
                            return None;
                        },
                    }
                } else if eq_token(&key, "text") {
                    match parse_string_at(s, n, j3) {
                        Some((v, kk)) => {
                            msg.text = Some(v);
                            k = kk;
                        },
                        None => {
                            proof {
                                assert(parse_message_members(s@, gj, gm, gh, gf) is None);
                            }
                            return None;
                        },
                    }
                } else if eq_token(&key, "callbackData") {
                    match parse_string_at(s, n, j3) {
                        Some((v, kk)) => {
                            msg.callback_data = Some(v);
                            k = kk;
                        },
                        None => {
                            proof {
                                assert(parse_message_members(s@, gj, gm, gh, gf) is None);
                            }
                            return None;
                        },
                    }
                } else if eq_token(&key, "notifyUrl") {
                    match parse_string_at(s, n, j3) {
                        Some((v, kk)) => {
                            msg.notify_url = Some(v);
                            k = kk;
                        },
                        None => {
                            proof {
                                assert(parse_message_members(s@, gj, gm, gh, gf) is None);
                            }
                            return None;
                        },
                    }
                } else if eq_token(&key, "transliteration") {
                    match parse_string_at(s, n, j3) {
                        Some((v, kk)) => {
                            msg.transliteration = Some(v);
                            k = kk;
                        },
                        None => {
                            proof {
                                assert(parse_message_members(s@, gj, gm, gh, gf) is None);
                            }
                            return None;
                        },
                    }
                } else {
                    proof {
                        assert(parse_message_members(s@, gj, gm, gh, gf) is None);
                    }
                    return None;
                }
                let k2 = skip_ws(s, n, k);
                if k2 < n {
                    let c = s.get_char(k2);
                    if c == ',' {
                        j = skip_ws(s, n, k2 + 1);
                        proof {
                            fuel = (gf - 1) as nat;
                            assert(parse_message_members(s@, gj, gm, gh, gf)
                                == parse_message_members(s@, j as int, msg@, have_dest, fuel));
                        }
                    } else if c == '}' {
                        proof {
                            assert(parse_message_members(s@, gj, gm, gh, gf) == Some(
                                ((msg@, have_dest), k2 + 1),
                            ));
                        }
                        if have_dest {
                            return Some((msg, k2 + 1));
                        } else {
                            return None;
                        }
                    } else {
                        proof {
                            assert(parse_message_members(s@, gj, gm, gh, gf) is None);
                        }
                        return None;
                    }
                } else {
                    proof {
                        assert(parse_message_members(s@, gj, gm, gh, gf) is None);
                    }
                    return None;
                }
            },
            None => {
                proof {
                    assert(parse_message_members(s@, gj, gm, gh, gf) is None);
                }
                return None;
            },
        }
    }
}

impl Message {
    /// Decodes a message from its JSON wire form: an object whose members
    /// are the required destinations array and the message's plain string
    /// fields. A document outside that schema — a type mismatch, an
    /// unknown member, or one this decoder does not cover, such as a
    /// delivery window — is a decoding error, never a silent fallback.
    pub fn from_json(s: &str) -> (r: Result<Message, DecodeError>)
        ensures
            message_from_json_spec(s@) matches Some(m) ==> (r matches Ok(msg) && msg@ == m),
            message_from_json_spec(s@) is None ==> r is Err,
    {
        let n = s.unicode_len();
        let i = skip_ws(s, n, 0);
        match parse_message_at(s, n, i) {
            Some((msg, j)) => {
                let j2 = skip_ws(s, n, j);
                if j2 == n {
                    Ok(msg)
                } else {
                    Err(DecodeError::new())
                }
            },
            None => Err(DecodeError::new()),
        }
    }
}

/// Escaping can be peeled from the front as well as from the back.
proof fn lemma_escape_str_front(t: Seq<char>)
    ensures
        t.len() > 0 ==> crate::wire::escape_str(t) == crate::wire::escape_char(t[0])
            + crate::wire::escape_str(t.drop_first()),
    decreases t.len(),
{
    if t.len() == 1 {
        assert(t.drop_last() =~= Seq::<char>::empty());
        assert(t.drop_first() =~= Seq::<char>::empty());
        assert(t.last() == t[0]);
        assert(Seq::<char>::empty() + crate::wire::escape_char(t[0]) =~= crate::wire::escape_char(
            t[0],
        ));
        assert(crate::wire::escape_char(t[0]) + Seq::<char>::empty() =~= crate::wire::escape_char(
            t[0],
        ));
    } else if t.len() > 1 {
        lemma_escape_str_front(t.drop_last());
        assert(t.drop_last()[0] == t[0]);
        assert(t.drop_last().drop_first() =~= t.drop_first().drop_last());
        assert(t.drop_first().last() == t.last());
        assert(crate::wire::escape_char(t[0]) + crate::wire::escape_str(t.drop_first().drop_last())
            + crate::wire::escape_char(t.last()) =~= crate::wire::escape_char(t[0]) + (
        crate::wire::escape_str(t.drop_first().drop_last()) + crate::wire::escape_char(t.last())));
    }
}

/// Every hexadecimal digit character the renderer can emit is accepted by
/// the parser and decodes to its value.
proof fn lemma_hex_digit_round_trip()
    ensures
        forall|d: nat| d < 16 ==> is_hex(#[trigger] crate::wire::hex_digit(d)) && hex_val(
            crate::wire::hex_digit(d),
        ) == d,
{
}

/// Parsing the escaped form of `t`, followed by a closing quote, recovers
/// exactly `t` and stops after the quote.
#[verifier::rlimit(100)]
proof fn lemma_parse_escaped_body(s: Seq<char>, i: int, acc: Seq<char>, t: Seq<char>)
    requires
        0 <= i,
        i + crate::wire::escape_str(t).len() + 1 <= s.len(),
        s.subrange(i, i + crate::wire::escape_str(t).len() + 1) == crate::wire::escape_str(t)
            + seq!['"'],
    ensures
        parse_string_body(s, i, acc) == Some(
            (acc + t, i + crate::wire::escape_str(t).len() + 1),
        ),
    decreases t.len(),
{
    reveal_strlit("\"");
    let esc = crate::wire::escape_str(t);
    let l = esc.len() as int;
    assert(forall|k: int| 0 <= k <= l ==> s[i + k] == #[trigger] (esc + seq!['"'])[k]) by {
        assert(forall|k: int| 0 <= k <= l ==> #[trigger] s.subrange(i, i + l + 1)[k] == s[i + k]);
    }
    if t.len() == 0 {
        assert(s[i + 0] == (esc + seq!['"'])[0]);
        assert(s[i] == '"');
        assert(acc + t =~= acc);
    } else {
        lemma_escape_str_front(t);
        let c = t[0];
        let e = crate::wire::escape_char(c);
        let tr = t.drop_first();
        let lr = crate::wire::escape_str(tr).len() as int;
        assert(esc == e + crate::wire::escape_str(tr));
        assert forall|k: int| 0 <= k < e.len() implies s[i + k] == #[trigger] e[k] by {
            assert(s[i + k] == (esc + seq!['"'])[k]);
            assert((esc + seq!['"'])[k] == esc[k]);
            assert(esc[k] == (e + crate::wire::escape_str(tr))[k]);
        }
        assert forall|j: int| 0 <= j <= lr implies s.subrange(
            i + e.len(),
            i + e.len() + lr + 1,
        )[j] == #[trigger] (crate::wire::escape_str(tr) + seq!['"'])[j] by {
            assert(s.subrange(i + e.len(), i + e.len() + lr + 1)[j] == s[i + e.len() + j]);
            assert(s[i + e.len() + j] == (esc + seq!['"'])[e.len() + j]);
            if j < lr {
                assert((esc + seq!['"'])[e.len() + j] == esc[e.len() + j]);
                assert(esc[e.len() + j] == (e + crate::wire::escape_str(tr))[e.len() + j]);
            }
        }
        assert(s.subrange(i + e.len(), i + e.len() + lr + 1) =~= crate::wire::escape_str(tr)
            + seq!['"']);
        assert(acc.push(c) + tr =~= acc + t);
        if c == '"' {
            reveal_strlit("\\\"");
            assert(e.len() == 2 && e[0] == '\\' && e[1] == '"');
            lemma_parse_escaped_body(s, i + 2, acc.push('"'), tr);
        } else if c == '\\' {
            reveal_strlit("\\\\");
            assert(e.len() == 2 && e[0] == '\\' && e[1] == '\\');
            lemma_parse_escaped_body(s, i + 2, acc.push('\\'), tr);
        } else if c == '\n' {
            reveal_strlit("\\n");
            assert(e.len() == 2 && e[0] == '\\' && e[1] == 'n');
            lemma_parse_escaped_body(s, i + 2, acc.push('\n'), tr);
        } else if c == '\r' {
            reveal_strlit("\\r");
            assert(e.len() == 2 && e[0] == '\\' && e[1] == 'r');
            lemma_parse_escaped_body(s, i + 2, acc.push('\r'), tr);
        } else if c == '\t' {
            reveal_strlit("\\t");
            assert(e.len() == 2 && e[0] == '\\' && e[1] == 't');
            lemma_parse_escaped_body(s, i + 2, acc.push('\t'), tr);
        } else if c == '\u{08}' {
            reveal_strlit("\\b");
            assert(e.len() == 2 && e[0] == '\\' && e[1] == 'b');
            lemma_parse_escaped_body(s, i + 2, acc.push('\u{08}'), tr);
        } else if c == '\u{0C}' {
            reveal_strlit("\\f");
            assert(e.len() == 2 && e[0] == '\\' && e[1] == 'f');
            lemma_parse_escaped_body(s, i + 2, acc.push('\u{0C}'), tr);
        } else if (c as u32) < 0x20 {
            reveal_strlit("\\u00");
            lemma_hex_digit_round_trip();
            let hi = ((c as u32) / 16) as nat;
            let lo = ((c as u32) % 16) as nat;
            assert(e == "\\u00"@ + seq![
                crate::wire::hex_digit(hi),
                crate::wire::hex_digit(lo),
            ]);
            assert(e.len() == 6);
            assert(e[0] == '\\' && e[1] == 'u' && e[2] == '0' && e[3] == '0');
            assert(e[4] == crate::wire::hex_digit(hi) && e[5] == crate::wire::hex_digit(lo));
            assert(is_hex(s[i + 2]) && is_hex(s[i + 3]) && is_hex(s[i + 4]) && is_hex(s[i + 5]));
            let code = hex_val(s[i + 2]) * 4096 + hex_val(s[i + 3]) * 256 + hex_val(s[i + 4]) * 16
                + hex_val(s[i + 5]);
            assert(code == hi * 16 + lo);
            assert(code == c as u32) by {
                assert(((c as u32) / 16) * 16 + (c as u32) % 16 == c as u32);
            }
            vstd::utf8::char_u32_cast(c, code as u32);
            assert(code as u32 as char == c);
            lemma_parse_escaped_body(s, i + 6, acc.push(code as u32 as char), tr);
        } else {
            assert(e =~= seq![c]);
            assert(s[i + 0] == e[0]);
            assert(s[i] == c);
            lemma_parse_escaped_body(s, i + 1, acc.push(c), tr);
        }
    }
}

/// Law: a string value as the serializer renders it decodes back to exactly
/// its characters, whatever follows it in the document.
pub proof fn lemma_string_value_round_trip(t: Seq<char>, rest: Seq<char>)
    ensures
        parse_string(crate::wire::json_str(t) + rest, 0) == Some(
            (t, crate::wire::json_str(t).len() as int),
        ),
{
    reveal_strlit("\"");
    let s = crate::wire::json_str(t) + rest;
    let esc = crate::wire::escape_str(t);
    let l = esc.len() as int;
    assert(s[0] == '"');
    assert(s.subrange(1, 1 + l + 1) =~= esc + seq!['"']);
    lemma_parse_escaped_body(s, 1, Seq::empty(), t);
    assert(Seq::<char>::empty() + t =~= t);
}

} // verus!
