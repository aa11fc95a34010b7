//! The grammar parser: turns source text into one root instance node.
//!
//! The grammar is described twice: once as specification functions over a
//! sequence of characters (the mathematical parse), and once as executable
//! code whose contracts state that it returns exactly what the mathematical
//! parse does.

use vstd::prelude::*;
use crate::text::{chars_of, push_char, str_eq, string_of};
use crate::values::{
    Decimal, DecimalView, RgInstance, RgInstanceView, RgNode, RgNodeView, RgProperty,
    RgPropertyView, Value, ValueView, lemma_children_views, spec_children_views,
};

verus! {

/// What a parse attempt tripped over.
#[derive(Debug, PartialEq, Eq, Clone, Copy)]
pub enum ParseErrorKind {
    ExpectedDigit,
    ExpectedHexDigit,
    ExpectedValue,
    ExpectedIdentifier,
    ExpectedColon,
    ExpectedComma,
    ExpectedParen,
    ExpectedBrace,
    ExpectedItem,
    ExpectedStringLiteral,
    UnterminatedString,
    UnknownEscape,
    NegativeChannel,
    NonIntegerChannel,
    ChannelOutOfRange,
    UnbalancedBraces,
    TrailingCharacters,
}

/// A parse failure: the character offset of the offending token and what was
/// expected or found there.
#[derive(Debug, PartialEq, Eq, Clone, Copy)]
pub struct ParseError {
    pub at: usize,
    pub kind: ParseErrorKind,
}

// ------------------------------------------------------------------
// Character classes
// ------------------------------------------------------------------

pub open spec fn is_ws_char(c: char) -> bool {
    c == ' ' || c == '\t' || c == '\n' || c == '\r'
}

pub open spec fn is_digit_char(c: char) -> bool {
    '0' <= c && c <= '9'
}

pub open spec fn is_hex_char(c: char) -> bool {
    is_digit_char(c) || ('a' <= c && c <= 'f') || ('A' <= c && c <= 'F')
}

pub open spec fn is_ident_start_char(c: char) -> bool {
    ('a' <= c && c <= 'z') || ('A' <= c && c <= 'Z') || c == '_'
}

pub open spec fn is_ident_char(c: char) -> bool {
    is_ident_start_char(c) || is_digit_char(c)
}

/// The numeric value of a decimal digit character.
pub open spec fn spec_digit_val(c: char) -> u8 {
    (c as u32 - '0' as u32) as u8
}

/// The numeric value of a hexadecimal digit character.
pub open spec fn spec_hex_val(c: char) -> u8 {
    if is_digit_char(c) {
        (c as u32 - '0' as u32) as u8
    } else if 'a' <= c && c <= 'f' {
        (c as u32 - 'a' as u32 + 10) as u8
    } else {
        (c as u32 - 'A' as u32 + 10) as u8
    }
}

// ------------------------------------------------------------------
// Scanners (specification)
// ------------------------------------------------------------------

/// The first position at or after `i` holding a non-whitespace character.
pub open spec fn spec_skip_ws(s: Seq<char>, i: int) -> int
    decreases s.len() - i,
{
    if 0 <= i < s.len() && is_ws_char(s[i]) {
        spec_skip_ws(s, i + 1)
    } else {
        i
    }
}

/// The end of the run of decimal digits starting at `i`.
pub open spec fn spec_scan_digits(s: Seq<char>, i: int) -> int
    decreases s.len() - i,
{
    if 0 <= i < s.len() && is_digit_char(s[i]) {
        spec_scan_digits(s, i + 1)
    } else {
        i
    }
}

/// The end of the run of identifier characters starting at `i`.
pub open spec fn spec_scan_ident_chars(s: Seq<char>, i: int) -> int
    decreases s.len() - i,
{
    if 0 <= i < s.len() && is_ident_char(s[i]) {
        spec_scan_ident_chars(s, i + 1)
    } else {
        i
    }
}

/// The end of the identifier starting at `i`: equal to `i` exactly when no
/// identifier starts there.
pub open spec fn spec_ident_end(s: Seq<char>, i: int) -> int {
    if 0 <= i < s.len() && is_ident_start_char(s[i]) {
        spec_scan_ident_chars(s, i + 1)
    } else {
        i
    }
}

/// The digit values of the characters of `s` between `i` and `j`.
pub open spec fn spec_digit_seq(s: Seq<char>, i: int, j: int) -> Seq<u8> {
    s.subrange(i, j).map_values(|c: char| spec_digit_val(c))
}

// ------------------------------------------------------------------
// Literals (specification)
// ------------------------------------------------------------------

/// A number literal at `i`: an optional `-`, one or more digits, and
/// optionally a `.` followed by one or more digits. Yields the literal as an
/// exact decimal and the position after it.
pub open spec fn spec_parse_number_at(s: Seq<char>, i: int) -> Option<(DecimalView, int)> {
    let neg = 0 <= i < s.len() && s[i] == '-';
    let i1 = if neg {
        i + 1
    } else {
        i
    };
    let d_end = spec_scan_digits(s, i1);
    if d_end == i1 {
        None
    } else {
        let ints = spec_digit_seq(s, i1, d_end);
        if d_end < s.len() && s[d_end] == '.' {
            let f_end = spec_scan_digits(s, d_end + 1);
            if f_end == d_end + 1 {
                None
            } else {
                Some(
                    (
                        DecimalView {
                            negative: neg,
                            int_digits: ints,
                            frac_digits: spec_digit_seq(s, d_end + 1, f_end),
                        },
                        f_end,
                    ),
                )
            }
        } else {
            Some(
                (DecimalView { negative: neg, int_digits: ints, frac_digits: Seq::empty() }, d_end),
            )
        }
    }
}

/// The contents of a string literal from just after its opening quote: plain
/// characters taken verbatim, `\"` yielding one `"`, any other escape being
/// an error, and a missing closing quote being an error. Yields the contents
/// and the position after the closing quote.
pub open spec fn spec_string_body(s: Seq<char>, i: int) -> Option<(Seq<char>, int)>
    decreases s.len() - i,
{
    if !(0 <= i < s.len()) {
        None
    } else if s[i] == '"' {
        Some((Seq::empty(), i + 1))
    } else if s[i] == '\\' {
        if i + 1 < s.len() && s[i + 1] == '"' {
            match spec_string_body(s, i + 2) {
                Some(t) => Some((seq!['"'] + t.0, t.1)),
                None => None,
            }
        } else {
            None
        }
    } else {
        match spec_string_body(s, i + 1) {
            Some(t) => Some((seq![s[i]] + t.0, t.1)),
            None => None,
        }
    }
}

/// A whole string literal at `i`, starting with its opening quote.
pub open spec fn spec_parse_string_at(s: Seq<char>, i: int) -> Option<(Seq<char>, int)> {
    if 0 <= i < s.len() && s[i] == '"' {
        spec_string_body(s, i + 1)
    } else {
        None
    }
}

/// A hex color at `i`: `#` followed by exactly six hexadecimal digits, read
/// as three two-digit channels.
pub open spec fn spec_parse_hex_at(s: Seq<char>, i: int) -> Option<(ValueView, int)> {
    if !(0 <= i < s.len() && s[i] == '#') {
        None
    } else if i + 7 <= s.len() && (forall|k: int| i + 1 <= k < i + 7 ==> is_hex_char(s[k])) {
        Some(
            (
                ValueView::Color(
                    (16 * spec_hex_val(s[i + 1]) + spec_hex_val(s[i + 2])) as u8,
                    (16 * spec_hex_val(s[i + 3]) + spec_hex_val(s[i + 4])) as u8,
                    (16 * spec_hex_val(s[i + 5]) + spec_hex_val(s[i + 6])) as u8,
                ),
                i + 7,
            ),
        )
    } else {
        None
    }
}

/// The number a sequence of decimal digit values denotes.
pub open spec fn spec_digits_value(ds: Seq<u8>) -> int
    decreases ds.len(),
{
    if ds.len() == 0 {
        0
    } else {
        spec_digits_value(ds.subrange(0, ds.len() - 1)) * 10 + ds[ds.len() - 1]
    }
}

/// One RGB channel at `i`: a number literal that must carry no sign, have no
/// fractional part, and denote a value of at most 255.
pub open spec fn spec_parse_channel_at(s: Seq<char>, i: int) -> Option<(u8, int)> {
    match spec_parse_number_at(s, i) {
        None => None,
        Some(t) => {
            let d = t.0;
            if d.negative || d.frac_digits.len() > 0 || spec_digits_value(d.int_digits) > 255 {
                None
            } else {
                Some((spec_digits_value(d.int_digits) as u8, t.1))
            }
        },
    }
}

/// The tail of an RGB color, from just after the `RGB` keyword: `(`, three
/// channels separated by commas, and `)`, with whitespace tolerated around
/// every token.
pub open spec fn spec_parse_rgb_tail(s: Seq<char>, i: int) -> Option<(ValueView, int)> {
    let j0 = spec_skip_ws(s, i);
    if !(0 <= j0 < s.len() && s[j0] == '(') {
        None
    } else {
        match spec_parse_channel_at(s, spec_skip_ws(s, j0 + 1)) {
            None => None,
            Some(t1) => {
                let c1 = spec_skip_ws(s, t1.1);
                if !(0 <= c1 < s.len() && s[c1] == ',') {
                    None
                } else {
                    match spec_parse_channel_at(s, spec_skip_ws(s, c1 + 1)) {
                        None => None,
                        Some(t2) => {
                            let c2 = spec_skip_ws(s, t2.1);
                            if !(0 <= c2 < s.len() && s[c2] == ',') {
                                None
                            } else {
                                match spec_parse_channel_at(s, spec_skip_ws(s, c2 + 1)) {
                                    None => None,
                                    Some(t3) => {
                                        let c3 = spec_skip_ws(s, t3.1);
                                        if !(0 <= c3 < s.len() && s[c3] == ')') {
                                            None
                                        } else {
                                            Some(
                                                (ValueView::Color(t1.0, t2.0, t3.0), c3 + 1),
                                            )
                                        }
                                    },
                                }
                            }
                        },
                    }
                }
            },
        }
    }
}

/// The tail of a dimension constructor, from just after the `UDim2` keyword:
/// `(`, four number literals separated by commas, and `)`, with whitespace
/// tolerated around every token; any sign and magnitude is accepted.
pub open spec fn spec_parse_udim2_tail(s: Seq<char>, i: int) -> Option<(ValueView, int)> {
    let j0 = spec_skip_ws(s, i);
    if !(0 <= j0 < s.len() && s[j0] == '(') {
        None
    } else {
        match spec_parse_number_at(s, spec_skip_ws(s, j0 + 1)) {
            None => None,
            Some(t1) => {
                let c1 = spec_skip_ws(s, t1.1);
                if !(0 <= c1 < s.len() && s[c1] == ',') {
                    None
                } else {
                    match spec_parse_number_at(s, spec_skip_ws(s, c1 + 1)) {
                        None => None,
                        Some(t2) => {
                            let c2 = spec_skip_ws(s, t2.1);
                            if !(0 <= c2 < s.len() && s[c2] == ',') {
                                None
                            } else {
                                match spec_parse_number_at(s, spec_skip_ws(s, c2 + 1)) {
                                    None => None,
                                    Some(t3) => {
                                        let c3 = spec_skip_ws(s, t3.1);
                                        if !(0 <= c3 < s.len() && s[c3] == ',') {
                                            None
                                        } else {
                                            match spec_parse_number_at(
                                                s,
                                                spec_skip_ws(s, c3 + 1),
                                            ) {
                                                None => None,
                                                Some(t4) => {
                                                    let c4 = spec_skip_ws(s, t4.1);
                                                    if !(0 <= c4 < s.len() && s[c4] == ')') {
                                                        None
                                                    } else {
                                                        Some(
                                                            (
                                                                ValueView::UDim2(
                                                                    t1.0,
                                                                    t2.0,
                                                                    t3.0,
                                                                    t4.0,
                                                                ),
                                                                c4 + 1,
                                                            ),
                                                        )
                                                    }
                                                },
                                            }
                                        }
                                    },
                                }
                            }
                        },
                    }
                }
            },
        }
    }
}

/// Whether, after skipping whitespace from `i`, an opening parenthesis
/// follows: this is what tells a color or dimension constructor apart from a
/// bare enum member spelled `RGB` or `UDim2`.
pub open spec fn spec_lparen_follows(s: Seq<char>, i: int) -> bool {
    let j = spec_skip_ws(s, i);
    0 <= j < s.len() && s[j] == '('
}

/// A value at `i`: a string literal, a hex color, a number, one of the
/// keywords `true` / `false`, an `RGB` or `UDim2` constructor, or a bare
/// identifier standing for an enum member.
pub open spec fn spec_parse_value_at(s: Seq<char>, i: int) -> Option<(ValueView, int)> {
    if !(0 <= i < s.len()) {
        None
    } else if s[i] == '"' {
        match spec_parse_string_at(s, i) {
            Some(t) => Some((ValueView::StringLiteral(t.0), t.1)),
            None => None,
        }
    } else if s[i] == '#' {
        spec_parse_hex_at(s, i)
    } else if s[i] == '-' || is_digit_char(s[i]) {
        match spec_parse_number_at(s, i) {
            Some(t) => Some((ValueView::Number(t.0), t.1)),
            None => None,
        }
    } else if is_ident_start_char(s[i]) {
        let e = spec_ident_end(s, i);
        let w = s.subrange(i, e);
        if w == "true"@ {
            Some((ValueView::Boolean(true), e))
        } else if w == "false"@ {
            Some((ValueView::Boolean(false), e))
        } else if w == "RGB"@ && spec_lparen_follows(s, e) {
            spec_parse_rgb_tail(s, e)
        } else if w == "UDim2"@ && spec_lparen_follows(s, e) {
            spec_parse_udim2_tail(s, e)
        } else {
            Some((ValueView::EnumMember(w), e))
        }
    } else {
        None
    }
}

/// A property assignment at `i`: an identifier, a colon and a value, with
/// whitespace tolerated between the tokens.
pub open spec fn spec_parse_property_at(s: Seq<char>, i: int) -> Option<(RgPropertyView, int)> {
    let e = spec_ident_end(s, i);
    if e == i {
        None
    } else {
        let name = s.subrange(i, e);
        let j = spec_skip_ws(s, e);
        if !(0 <= j < s.len() && s[j] == ':') {
            None
        } else {
            match spec_parse_value_at(s, spec_skip_ws(s, j + 1)) {
                None => None,
                Some(t) => Some((RgPropertyView { name, value: t.0 }, t.1)),
            }
        }
    }
}

/// `x`, held to the range `lo ..= s.len()`. The grammar only ever forms the
/// next position from scans that already lie in that range, so this changes
/// nothing on real parses; it makes the descent of the recursion plain.
pub open spec fn spec_next_pos(s: Seq<char>, lo: int, x: int) -> int {
    if x < lo {
        lo
    } else if x > s.len() {
        s.len() as int
    } else {
        x
    }
}

/// The synthetic properties an instance starts with: its `_ClassName`, and,
/// when the source supplied a quoted name argument, its `Name`.
pub open spec fn spec_synthetic_props(cname: Seq<char>, nm: Option<Seq<char>>) -> Seq<
    RgPropertyView,
> {
    match nm {
        Some(n) => seq![
            RgPropertyView { name: "_ClassName"@, value: ValueView::StringLiteral(cname) },
            RgPropertyView { name: "Name"@, value: ValueView::StringLiteral(n) },
        ],
        None => seq![
            RgPropertyView { name: "_ClassName"@, value: ValueView::StringLiteral(cname) },
        ],
    }
}

/// An instance at `i`: an identifier, an optional quoted name, and a braced
/// body of properties and child instances. The leading identifier becomes the
/// synthetic `_ClassName` property and the quoted name, when present, the
/// synthetic `Name` property, ahead of the body's own properties.
pub open spec fn spec_parse_instance_at(s: Seq<char>, i: int) -> Option<(RgInstanceView, int)>
    decreases s.len() - i, 0int,
{
    let e = spec_ident_end(s, i);
    if e == i {
        None
    } else {
        let cname = s.subrange(i, e);
        let j = spec_skip_ws(s, e);
        let hdr: Option<(Option<Seq<char>>, int)> = if 0 <= j < s.len() && s[j] == '"' {
            match spec_parse_string_at(s, j) {
                None => None,
                Some(t) => Some((Some(t.0), spec_skip_ws(s, t.1))),
            }
        } else {
            Some((None, j))
        };
        match hdr {
            None => None,
            Some(h) => {
                let nm = h.0;
                let j2 = h.1;
                if !(0 <= j2 < s.len() && s[j2] == '{') {
                    None
                } else {
                    let k = spec_next_pos(s, i + 1, spec_skip_ws(s, j2 + 1));
                    match spec_parse_body(s, k) {
                        None => None,
                        Some(t) => Some(
                            (
                                RgInstanceView {
                                    properties: spec_synthetic_props(cname, nm) + t.0,
                                    children: t.1,
                                },
                                t.2,
                            ),
                        ),
                    }
                }
            },
        }
    }
}

/// The items of an instance body from `k` to the closing `}`: at each step
/// either the closing brace, a property assignment, or a nested instance,
/// told apart by what follows the leading identifier.
pub open spec fn spec_parse_body(s: Seq<char>, k: int) -> Option<
    (Seq<RgPropertyView>, Seq<RgInstanceView>, int),
>
    decreases s.len() - k, 1int,
{
    if !(0 <= k < s.len()) {
        None
    } else if s[k] == '}' {
        Some((Seq::empty(), Seq::empty(), k + 1))
    } else {
        let e = spec_ident_end(s, k);
        if e == k {
            None
        } else {
            let m = spec_skip_ws(s, e);
            if 0 <= m < s.len() && s[m] == ':' {
                match spec_parse_property_at(s, k) {
                    None => None,
                    Some(t) => {
                        let k2 = spec_next_pos(s, k + 1, spec_skip_ws(s, t.1));
                        match spec_parse_body(s, k2) {
                            None => None,
                            Some(b) => Some((seq![t.0] + b.0, b.1, b.2)),
                        }
                    },
                }
            } else if 0 <= m < s.len() && (s[m] == '"' || s[m] == '{') {
                match spec_parse_instance_at(s, k) {
                    None => None,
                    Some(t) => {
                        let k2 = spec_next_pos(s, k + 1, spec_skip_ws(s, t.1));
                        match spec_parse_body(s, k2) {
                            None => None,
                            Some(b) => Some((b.0, seq![t.0] + b.1, b.2)),
                        }
                    },
                }
            } else {
                None
            }
        }
    }
}

/// A whole document: optional whitespace, one instance, optional whitespace,
/// and nothing else.
pub open spec fn spec_parse_document(s: Seq<char>) -> Option<RgInstanceView> {
    match spec_parse_instance_at(s, spec_skip_ws(s, 0)) {
        None => None,
        Some(t) => if spec_skip_ws(s, t.1) == s.len() {
            Some(t.0)
        } else {
            None
        },
    }
}

// ------------------------------------------------------------------
// Scanners and literals (executable)
// ------------------------------------------------------------------

fn is_ws(c: char) -> (r: bool)
    ensures
        r == is_ws_char(c),
{
    c == ' ' || c == '\t' || c == '\n' || c == '\r'
}

fn is_digit(c: char) -> (r: bool)
    ensures
        r == is_digit_char(c),
{
    '0' <= c && c <= '9'
}

fn is_hex(c: char) -> (r: bool)
    ensures
        r == is_hex_char(c),
{
    is_digit(c) || ('a' <= c && c <= 'f') || ('A' <= c && c <= 'F')
}

fn is_ident_start(c: char) -> (r: bool)
    ensures
        r == is_ident_start_char(c),
{
    ('a' <= c && c <= 'z') || ('A' <= c && c <= 'Z') || c == '_'
}

fn is_ident(c: char) -> (r: bool)
    ensures
        r == is_ident_char(c),
{
    is_ident_start(c) || is_digit(c)
}

fn digit_val(c: char) -> (r: u8)
    requires
        is_digit_char(c),
    ensures
        r == spec_digit_val(c),
        r < 10,
{
    (c as u32 - '0' as u32) as u8
}

fn hex_val(c: char) -> (r: u8)
    requires
        is_hex_char(c),
    ensures
        r == spec_hex_val(c),
        r < 16,
{
    if is_digit(c) {
        (c as u32 - '0' as u32) as u8
    } else if 'a' <= c && c <= 'f' {
        (c as u32 - 'a' as u32 + 10) as u8
    } else {
        (c as u32 - 'A' as u32 + 10) as u8
    }
}

fn skip_ws(s: &Vec<char>, i: usize) -> (r: usize)
    requires
        i <= s@.len(),
    ensures
        r as int == spec_skip_ws(s@, i as int),
        i <= r <= s@.len(),
{
    let mut r = i;
    while r < s.len() && is_ws(s[r])
        invariant
            i <= r <= s@.len(),
            spec_skip_ws(s@, i as int) == spec_skip_ws(s@, r as int),
        decreases s@.len() - r,
    {
        r += 1;
    }
    r
}

fn scan_digits(s: &Vec<char>, i: usize) -> (r: usize)
    requires
        i <= s@.len(),
    ensures
        r as int == spec_scan_digits(s@, i as int),
        i <= r <= s@.len(),
        forall|k: int| i <= k < r ==> is_digit_char(s@[k]),
{
    let mut r = i;
    while r < s.len() && is_digit(s[r])
        invariant
            i <= r <= s@.len(),
            spec_scan_digits(s@, i as int) == spec_scan_digits(s@, r as int),
            forall|k: int| i <= k < r ==> is_digit_char(s@[k]),
        decreases s@.len() - r,
    {
        r += 1;
    }
    r
}

fn ident_end(s: &Vec<char>, i: usize) -> (r: usize)
    requires
        i <= s@.len(),
    ensures
        r as int == spec_ident_end(s@, i as int),
        i <= r <= s@.len(),
        i < s@.len() && is_ident_start_char(s@[i as int]) ==> i < r,
{
    if !(i < s.len() && is_ident_start(s[i])) {
        return i;
    }
    let mut r = i + 1;
    while r < s.len() && is_ident(s[r])
        invariant
            i + 1 <= r <= s@.len(),
            spec_scan_ident_chars(s@, i + 1) == spec_scan_ident_chars(s@, r as int),
        decreases s@.len() - r,
    {
        r += 1;
    }
    r
}

fn collect_digits(s: &Vec<char>, i: usize, j: usize) -> (r: Vec<u8>)
    requires
        i <= j <= s@.len(),
        forall|k: int| i <= k < j ==> is_digit_char(s@[k]),
    ensures
        r@ == spec_digit_seq(s@, i as int, j as int),
        forall|m: int| 0 <= m < r@.len() ==> r@[m] < 10,
{
    let mut r: Vec<u8> = Vec::new();
    let mut k = i;
    while k < j
        invariant
            i <= k <= j <= s@.len(),
            forall|t: int| i <= t < j ==> is_digit_char(s@[t]),
            r@.len() == k - i,
            forall|m: int| 0 <= m < r@.len() ==> r@[m] == spec_digit_val(s@[i + m]) && r@[m] < 10,
        decreases j - k,
    {
        r.push(digit_val(s[k]));
        k += 1;
    }
    proof {
        assert(r@ =~= spec_digit_seq(s@, i as int, j as int));
    }
    r
}

fn string_from_range(s: &Vec<char>, i: usize, j: usize) -> (r: String)
    requires
        i <= j <= s@.len(),
    ensures
        r@ == s@.subrange(i as int, j as int),
{
    let mut r = String::new();
    let mut k = i;
    while k < j
        invariant
            i <= k <= j <= s@.len(),
            r@ =~= s@.subrange(i as int, k as int),
        decreases j - k,
    {
        push_char(&mut r, s[k]);
        proof {
            assert(r@ =~= s@.subrange(i as int, (k + 1) as int));
        }
        k += 1;
    }
    r
}

fn parse_number_at(s: &Vec<char>, i: usize) -> (r: Result<(Decimal, usize), ParseError>)
    requires
        i <= s@.len(),
    ensures
        match r {
            Ok(t) => spec_parse_number_at(s@, i as int) == Some((t.0@, t.1 as int)) && i < t.1
                <= s@.len(),
            Err(e) => spec_parse_number_at(s@, i as int) is None,
        },
{
    let neg = i < s.len() && s[i] == '-';
    let i1 = if neg {
        i + 1
    } else {
        i
    };
    let d_end = scan_digits(s, i1);
    if d_end == i1 {
        return Err(ParseError { at: i1, kind: ParseErrorKind::ExpectedDigit });
    }
    let int_digits = collect_digits(s, i1, d_end);
    if d_end < s.len() && s[d_end] == '.' {
        let f_end = scan_digits(s, d_end + 1);
        if f_end == d_end + 1 {
            return Err(ParseError { at: f_end, kind: ParseErrorKind::ExpectedDigit });
        }
        let frac_digits = collect_digits(s, d_end + 1, f_end);
        Ok((Decimal { negative: neg, int_digits, frac_digits }, f_end))
    } else {
        Ok((Decimal { negative: neg, int_digits, frac_digits: Vec::new() }, d_end))
    }
}

fn parse_string_at(s: &Vec<char>, i: usize) -> (r: Result<(String, usize), ParseError>)
    requires
        i <= s@.len(),
    ensures
        match r {
            Ok(t) => spec_parse_string_at(s@, i as int) == Some((t.0@, t.1 as int)) && i < t.1
                <= s@.len(),
            Err(e) => spec_parse_string_at(s@, i as int) is None,
        },
{
    if !(i < s.len() && s[i] == '"') {
        return Err(ParseError { at: i, kind: ParseErrorKind::ExpectedStringLiteral });
    }
    let mut acc: Vec<char> = Vec::new();
    let mut k = i + 1;
    loop
        invariant
            i + 1 <= k <= s@.len(),
            s@[i as int] == '"',
            spec_string_body(s@, (i + 1) as int) == match spec_string_body(s@, k as int) {
                Some(t) => Some((acc@ + t.0, t.1)),
                None => None::<(Seq<char>, int)>,
            },
        decreases s@.len() - k,
    {
        if k >= s.len() {
            return Err(ParseError { at: i, kind: ParseErrorKind::UnterminatedString });
        }
        let c = s[k];
        if c == '"' {
            proof {
                assert(acc@ + Seq::<char>::empty() =~= acc@);
            }
            let content = string_of(&acc);
            return Ok((content, k + 1));
        } else if c == '\\' {
            if k + 1 < s.len() && s[k + 1] == '"' {
                proof {
                    assert forall|t0: Seq<char>| true implies acc@ + (seq!['"'] + t0) =~= (acc@
                        + seq!['"']) + t0 by {}
                }
                acc.push('"');
                k = k + 2;
            } else {
                return Err(ParseError { at: k, kind: ParseErrorKind::UnknownEscape });
            }
        } else {
            proof {
                assert forall|t0: Seq<char>| true implies acc@ + (seq![s@[k as int]] + t0) =~= (
                acc@ + seq![s@[k as int]]) + t0 by {}
            }
            acc.push(c);
            k = k + 1;
        }
    }
}

fn parse_hex_at(s: &Vec<char>, i: usize) -> (r: Result<(Value, usize), ParseError>)
    requires
        i <= s@.len(),
    ensures
        match r {
            Ok(t) => spec_parse_hex_at(s@, i as int) == Some((t.0@, t.1 as int)) && i < t.1
                <= s@.len(),
            Err(e) => spec_parse_hex_at(s@, i as int) is None,
        },
{
    if !(i < s.len() && s[i] == '#') {
        return Err(ParseError { at: i, kind: ParseErrorKind::ExpectedValue });
    }
    if s.len() < 7 || i > s.len() - 7 {
        return Err(ParseError { at: i, kind: ParseErrorKind::ExpectedHexDigit });
    }
    let end = i + 7;
    let mut k = i + 1;
    while k < end
        invariant
            end == i + 7,
            i + 1 <= k <= i + 7,
            i + 7 <= s@.len(),
            forall|t: int| i + 1 <= t < k ==> is_hex_char(s@[t]),
        decreases end - k,
    {
        if !is_hex(s[k]) {
            return Err(ParseError { at: k, kind: ParseErrorKind::ExpectedHexDigit });
        }
        k += 1;
    }
    let red = 16 * hex_val(s[i + 1]) + hex_val(s[i + 2]);
    let green = 16 * hex_val(s[i + 3]) + hex_val(s[i + 4]);
    let blue = 16 * hex_val(s[i + 5]) + hex_val(s[i + 6]);
    Ok((Value::Color(red, green, blue), i + 7))
}

/// The capped numeric value of a digit sequence: exact up to 255, and
/// saturated above that.
fn channel_value(ds: &Vec<u8>) -> (r: u32)
    ensures
        r <= 255 ==> r as int == spec_digits_value(ds@),
        r > 255 ==> spec_digits_value(ds@) > 255,
{
    let mut val: u32 = 0;
    let mut m: usize = 0;
    while m < ds.len()
        invariant
            0 <= m <= ds@.len(),
            val <= 256,
            val <= 255 ==> val as int == spec_digits_value(ds@.subrange(0, m as int)),
            val == 256 ==> spec_digits_value(ds@.subrange(0, m as int)) > 255,
        decreases ds@.len() - m,
    {
        proof {
            assert(ds@.subrange(0, (m + 1) as int).subrange(0, m as int) =~= ds@.subrange(
                0,
                m as int,
            ));
            assert(ds@.subrange(0, (m + 1) as int)[m as int] == ds@[m as int]);
        }
        let d = ds[m] as u32;
        let nv = val * 10 + d;
        val = if nv > 255 {
            256
        } else {
            nv
        };
        m += 1;
    }
    proof {
        assert(ds@.subrange(0, ds@.len() as int) =~= ds@);
    }
    val
}

fn parse_channel_at(s: &Vec<char>, i: usize) -> (r: Result<(u8, usize), ParseError>)
    requires
        i <= s@.len(),
    ensures
        match r {
            Ok(t) => spec_parse_channel_at(s@, i as int) == Some((t.0, t.1 as int)) && i < t.1
                <= s@.len(),
            Err(e) => spec_parse_channel_at(s@, i as int) is None,
        },
{
    let (d, p) = match parse_number_at(s, i) {
        Err(e) => {
            return Err(e);
        },
        Ok(t) => t,
    };
    if d.negative {
        return Err(ParseError { at: i, kind: ParseErrorKind::NegativeChannel });
    }
    if d.frac_digits.len() > 0 {
        return Err(ParseError { at: i, kind: ParseErrorKind::NonIntegerChannel });
    }
    let v = channel_value(&d.int_digits);
    if v > 255 {
        return Err(ParseError { at: i, kind: ParseErrorKind::ChannelOutOfRange });
    }
    Ok((v as u8, p))
}

fn parse_rgb_tail(s: &Vec<char>, i: usize) -> (r: Result<(Value, usize), ParseError>)
    requires
        i <= s@.len(),
    ensures
        match r {
            Ok(t) => spec_parse_rgb_tail(s@, i as int) == Some((t.0@, t.1 as int)) && i < t.1
                <= s@.len(),
            Err(e) => spec_parse_rgb_tail(s@, i as int) is None,
        },
{
    let j0 = skip_ws(s, i);
    if !(j0 < s.len() && s[j0] == '(') {
        return Err(ParseError { at: j0, kind: ParseErrorKind::ExpectedParen });
    }
    let a0 = skip_ws(s, j0 + 1);
    let (red, p1) = match parse_channel_at(s, a0) {
        Err(e) => {
            return Err(e);
        },
        Ok(t) => t,
    };
    let c1 = skip_ws(s, p1);
    if !(c1 < s.len() && s[c1] == ',') {
        return Err(ParseError { at: c1, kind: ParseErrorKind::ExpectedComma });
    }
    let a1 = skip_ws(s, c1 + 1);
    let (green, p2) = match parse_channel_at(s, a1) {
        Err(e) => {
            return Err(e);
        },
        Ok(t) => t,
    };
    let c2 = skip_ws(s, p2);
    if !(c2 < s.len() && s[c2] == ',') {
        return Err(ParseError { at: c2, kind: ParseErrorKind::ExpectedComma });
    }
    let a2 = skip_ws(s, c2 + 1);
    let (blue, p3) = match parse_channel_at(s, a2) {
        Err(e) => {
            return Err(e);
        },
        Ok(t) => t,
    };
    let c3 = skip_ws(s, p3);
    if !(c3 < s.len() && s[c3] == ')') {
        return Err(ParseError { at: c3, kind: ParseErrorKind::ExpectedParen });
    }
    Ok((Value::Color(red, green, blue), c3 + 1))
}

fn parse_udim2_tail(s: &Vec<char>, i: usize) -> (r: Result<(Value, usize), ParseError>)
    requires
        i <= s@.len(),
    ensures
        match r {
            Ok(t) => spec_parse_udim2_tail(s@, i as int) == Some((t.0@, t.1 as int)) && i < t.1
                <= s@.len(),
            Err(e) => spec_parse_udim2_tail(s@, i as int) is None,
        },
{
    let j0 = skip_ws(s, i);
    if !(j0 < s.len() && s[j0] == '(') {
        return Err(ParseError { at: j0, kind: ParseErrorKind::ExpectedParen });
    }
    let a0 = skip_ws(s, j0 + 1);
    let (d1, p1) = match parse_number_at(s, a0) {
        Err(e) => {
            return Err(e);
        },
        Ok(t) => t,
    };
    let c1 = skip_ws(s, p1);
    if !(c1 < s.len() && s[c1] == ',') {
        return Err(ParseError { at: c1, kind: ParseErrorKind::ExpectedComma });
    }
    let a1 = skip_ws(s, c1 + 1);
    let (d2, p2) = match parse_number_at(s, a1) {
        Err(e) => {
            return Err(e);
        },
        Ok(t) => t,
    };
    let c2 = skip_ws(s, p2);
    if !(c2 < s.len() && s[c2] == ',') {
        return Err(ParseError { at: c2, kind: ParseErrorKind::ExpectedComma });
    }
    let a2 = skip_ws(s, c2 + 1);
    let (d3, p3) = match parse_number_at(s, a2) {
        Err(e) => {
            return Err(e);
        },
        Ok(t) => t,
    };
    let c3 = skip_ws(s, p3);
    if !(c3 < s.len() && s[c3] == ',') {
        return Err(ParseError { at: c3, kind: ParseErrorKind::ExpectedComma });
    }
    let a3 = skip_ws(s, c3 + 1);
    let (d4, p4) = match parse_number_at(s, a3) {
        Err(e) => {
            return Err(e);
        },
        Ok(t) => t,
    };
    let c4 = skip_ws(s, p4);
    if !(c4 < s.len() && s[c4] == ')') {
        return Err(ParseError { at: c4, kind: ParseErrorKind::ExpectedParen });
    }
    Ok((Value::UDim2(d1, d2, d3, d4), c4 + 1))
}

fn parse_value_at(s: &Vec<char>, i: usize) -> (r: Result<(Value, usize), ParseError>)
    requires
        i <= s@.len(),
    ensures
        match r {
            Ok(t) => spec_parse_value_at(s@, i as int) == Some((t.0@, t.1 as int)) && i < t.1
                <= s@.len(),
            Err(e) => spec_parse_value_at(s@, i as int) is None,
        },
{
    if i >= s.len() {
        return Err(ParseError { at: i, kind: ParseErrorKind::ExpectedValue });
    }
    let c = s[i];
    if c == '"' {
        match parse_string_at(s, i) {
            Err(e) => Err(e),
            Ok(t) => Ok((Value::StringLiteral(t.0), t.1)),
        }
    } else if c == '#' {
        parse_hex_at(s, i)
    } else if c == '-' || is_digit(c) {
        match parse_number_at(s, i) {
            Err(e) => Err(e),
            Ok(t) => Ok((Value::Number(t.0), t.1)),
        }
    } else if is_ident_start(c) {
        let e = ident_end(s, i);
        let word = string_from_range(s, i, e);
        if str_eq(word.as_str(), "true") {
            Ok((Value::Boolean(true), e))
        } else if str_eq(word.as_str(), "false") {
            Ok((Value::Boolean(false), e))
        } else if str_eq(word.as_str(), "RGB") {
            let j = skip_ws(s, e);
            if j < s.len() && s[j] == '(' {
                parse_rgb_tail(s, e)
            } else {
                Ok((Value::EnumMember(word), e))
            }
        } else if str_eq(word.as_str(), "UDim2") {
            let j = skip_ws(s, e);
            if j < s.len() && s[j] == '(' {
                parse_udim2_tail(s, e)
            } else {
                Ok((Value::EnumMember(word), e))
            }
        } else {
            Ok((Value::EnumMember(word), e))
        }
    } else {
        Err(ParseError { at: i, kind: ParseErrorKind::ExpectedValue })
    }
}

fn parse_property_at(s: &Vec<char>, i: usize) -> (r: Result<(RgProperty, usize), ParseError>)
    requires
        i <= s@.len(),
    ensures
        match r {
            Ok(t) => spec_parse_property_at(s@, i as int) == Some((t.0@, t.1 as int)) && i < t.1
                <= s@.len(),
            Err(e) => spec_parse_property_at(s@, i as int) is None,
        },
{
    let e = ident_end(s, i);
    if e == i {
        return Err(ParseError { at: i, kind: ParseErrorKind::ExpectedIdentifier });
    }
    let name = string_from_range(s, i, e);
    let j = skip_ws(s, e);
    if !(j < s.len() && s[j] == ':') {
        return Err(ParseError { at: j, kind: ParseErrorKind::ExpectedColon });
    }
    let k = skip_ws(s, j + 1);
    match parse_value_at(s, k) {
        Err(er) => Err(er),
        Ok(t) => Ok((RgProperty::new(name, t.0), t.1)),
    }
}

/// Concatenation of sequences is associative.
proof fn lemma_seq_assoc<T>(a: Seq<T>, b: Seq<T>, c: Seq<T>)
    ensures
        (a + b) + c =~= a + (b + c),
{
}

/// The views of a sequence of properties, in order.
pub open spec fn spec_prop_views(ps: Seq<RgProperty>) -> Seq<RgPropertyView> {
    Seq::new(ps.len(), |i: int| ps[i]@)
}

fn parse_instance_at(s: &Vec<char>, i: usize) -> (r: Result<(RgInstance, usize), ParseError>)
    requires
        i <= s@.len(),
    ensures
        match r {
            Ok(t) => spec_parse_instance_at(s@, i as int) == Some((t.0@, t.1 as int)) && i < t.1
                <= s@.len(),
            Err(e) => spec_parse_instance_at(s@, i as int) is None,
        },
    decreases s@.len() - i,
{
    let e = ident_end(s, i);
    if e == i {
        return Err(ParseError { at: i, kind: ParseErrorKind::ExpectedIdentifier });
    }
    let cname = string_from_range(s, i, e);
    let ghost cnamev = s@.subrange(i as int, e as int);
    let j = skip_ws(s, e);
    let mut props: Vec<RgProperty> = Vec::new();
    let ghost mut nmv: Option<Seq<char>> = None;
    let j2: usize;
    if j < s.len() && s[j] == '"' {
        match parse_string_at(s, j) {
            Err(er) => {
                return Err(er);
            },
            Ok(t) => {
                proof {
                    nmv = Some(t.0@);
                }
                props.push(RgProperty::new("_ClassName".to_owned(), Value::StringLiteral(cname)));
                props.push(RgProperty::new("Name".to_owned(), Value::StringLiteral(t.0)));
                j2 = skip_ws(s, t.1);
            },
        }
    } else {
        props.push(RgProperty::new("_ClassName".to_owned(), Value::StringLiteral(cname)));
        j2 = j;
    }
    proof {
        assert(spec_prop_views(props@) =~= spec_synthetic_props(cnamev, nmv));
    }
    if !(j2 < s.len() && s[j2] == '{') {
        return Err(ParseError { at: j2, kind: ParseErrorKind::ExpectedBrace });
    }
    let mut k = skip_ws(s, j2 + 1);
    let mut children: Vec<RgInstance> = Vec::new();
    proof {
        assert(spec_next_pos(s@, i + 1, spec_skip_ws(s@, j2 + 1)) == k as int);
        lemma_children_views(children@);
        assert(spec_children_views(children@) =~= Seq::<RgInstanceView>::empty());
    }
    loop
        invariant
            i < k <= s@.len(),
            spec_parse_instance_at(s@, i as int) == (match spec_parse_body(s@, k as int) {
                None => None::<(RgInstanceView, int)>,
                Some(b) => Some(
                    (
                        RgInstanceView {
                            properties: spec_prop_views(props@) + b.0,
                            children: spec_children_views(children@) + b.1,
                        },
                        b.2,
                    ),
                ),
            }),
        decreases s@.len() - k,
    {
        if k >= s.len() {
            return Err(ParseError { at: k, kind: ParseErrorKind::UnbalancedBraces });
        }
        if s[k] == '}' {
            proof {
                assert(spec_prop_views(props@) + Seq::<RgPropertyView>::empty() =~= spec_prop_views(
                    props@,
                ));
                assert(spec_children_views(children@) + Seq::<RgInstanceView>::empty()
                    =~= spec_children_views(children@));
            }
            let result = RgInstance { _properties: props, _children: children };
            proof {
                assert(result@.properties =~= spec_prop_views(result._properties@));
                assert(result@ == RgInstanceView {
                    properties: spec_prop_views(result._properties@),
                    children: spec_children_views(result._children@),
                });
            }
            return Ok((result, k + 1));
        }
        let e2 = ident_end(s, k);
        if e2 == k {
            return Err(ParseError { at: k, kind: ParseErrorKind::ExpectedItem });
        }
        let m = skip_ws(s, e2);
        if m < s.len() && s[m] == ':' {
            match parse_property_at(s, k) {
                Err(er) => {
                    return Err(er);
                },
                Ok(t) => {
                    let k2 = skip_ws(s, t.1);
                    proof {
                        assert(spec_next_pos(s@, k + 1, spec_skip_ws(s@, t.1 as int))
                            == k2 as int);
                        let pv_old = spec_prop_views(props@);
                        assert(spec_prop_views(props@.push(t.0)) =~= pv_old + seq![t.0@]);
                        match spec_parse_body(s@, k2 as int) {
                            Some(b) => {
                                lemma_seq_assoc(pv_old, seq![t.0@], b.0);
                            },
                            None => {},
                        }
                    }
                    props.push(t.0);
                    k = k2;
                },
            }
        } else if m < s.len() && (s[m] == '"' || s[m] == '{') {
            match parse_instance_at(s, k) {
                Err(er) => {
                    return Err(er);
                },
                Ok(t) => {
                    let k2 = skip_ws(s, t.1);
                    proof {
                        assert(spec_next_pos(s@, k + 1, spec_skip_ws(s@, t.1 as int))
                            == k2 as int);
                        let cv_old = spec_children_views(children@);
                        lemma_children_views(children@);
                        lemma_children_views(children@.push(t.0));
                        assert(spec_children_views(children@.push(t.0)) =~= cv_old + seq![t.0@]);
                        match spec_parse_body(s@, k2 as int) {
                            Some(b) => {
                                lemma_seq_assoc(cv_old, seq![t.0@], b.1);
                            },
                            None => {},
                        }
                    }
                    children.push(t.0);
                    k = k2;
                },
            }
        } else {
            return Err(ParseError { at: m, kind: ParseErrorKind::ExpectedColon });
        }
    }
}

// ------------------------------------------------------------------
// Entry points
// ------------------------------------------------------------------

/// The whole-text parse of a number literal, whitespace tolerated around it.
pub open spec fn spec_parse_number_text(s: Seq<char>) -> Option<ValueView> {
    match spec_parse_number_at(s, spec_skip_ws(s, 0)) {
        None => None,
        Some(t) => if spec_skip_ws(s, t.1) == s.len() {
            Some(ValueView::Number(t.0))
        } else {
            None
        },
    }
}

/// The whole-text parse of a string literal, whitespace tolerated around it.
pub open spec fn spec_parse_string_text(s: Seq<char>) -> Option<ValueView> {
    match spec_parse_string_at(s, spec_skip_ws(s, 0)) {
        None => None,
        Some(t) => if spec_skip_ws(s, t.1) == s.len() {
            Some(ValueView::StringLiteral(t.0))
        } else {
            None
        },
    }
}

/// The whole-text parse of a boolean literal, whitespace tolerated around it.
pub open spec fn spec_parse_boolean_text(s: Seq<char>) -> Option<ValueView> {
    let i = spec_skip_ws(s, 0);
    let e = spec_ident_end(s, i);
    if e == i || spec_skip_ws(s, e) != s.len() {
        None
    } else if s.subrange(i, e) == "true"@ {
        Some(ValueView::Boolean(true))
    } else if s.subrange(i, e) == "false"@ {
        Some(ValueView::Boolean(false))
    } else {
        None
    }
}

/// The whole-text parse of a hex color, whitespace tolerated around it.
pub open spec fn spec_parse_hex_text(s: Seq<char>) -> Option<ValueView> {
    match spec_parse_hex_at(s, spec_skip_ws(s, 0)) {
        None => None,
        Some(t) => if spec_skip_ws(s, t.1) == s.len() {
            Some(t.0)
        } else {
            None
        },
    }
}

/// The whole-text parse of an RGB color, whitespace tolerated around it.
pub open spec fn spec_parse_rgb_text(s: Seq<char>) -> Option<ValueView> {
    let i = spec_skip_ws(s, 0);
    let e = spec_ident_end(s, i);
    if e == i || s.subrange(i, e) != "RGB"@ {
        None
    } else {
        match spec_parse_rgb_tail(s, e) {
            None => None,
            Some(t) => if spec_skip_ws(s, t.1) == s.len() {
                Some(t.0)
            } else {
                None
            },
        }
    }
}

/// The whole-text parse of a dimension constructor, whitespace tolerated
/// around it.
pub open spec fn spec_parse_udim2_text(s: Seq<char>) -> Option<ValueView> {
    let i = spec_skip_ws(s, 0);
    let e = spec_ident_end(s, i);
    if e == i || s.subrange(i, e) != "UDim2"@ {
        None
    } else {
        match spec_parse_udim2_tail(s, e) {
            None => None,
            Some(t) => if spec_skip_ws(s, t.1) == s.len() {
                Some(t.0)
            } else {
                None
            },
        }
    }
}

/// The whole-text parse of a property assignment, whitespace tolerated
/// around it.
pub open spec fn spec_parse_prop_text(s: Seq<char>) -> Option<RgPropertyView> {
    match spec_parse_property_at(s, spec_skip_ws(s, 0)) {
        None => None,
        Some(t) => if spec_skip_ws(s, t.1) == s.len() {
            Some(t.0)
        } else {
            None
        },
    }
}

/// Parses a whole document: one root instance, surrounded by nothing but
/// whitespace, returned as an instance node.
pub fn parse_str(contents: &str) -> (r: Result<RgNode, ParseError>)
    ensures
        match r {
            Ok(n) => spec_parse_document(contents@) is Some && n@ == RgNodeView::Instance(
                spec_parse_document(contents@).unwrap(),
            ),
            Err(e) => spec_parse_document(contents@) is None,
        },
{
    let cs = chars_of(contents);
    let i = skip_ws(&cs, 0);
    match parse_instance_at(&cs, i) {
        Err(er) => Err(er),
        Ok(t) => {
            let q = skip_ws(&cs, t.1);
            if q == cs.len() {
                Ok(RgNode::Instance(t.0))
            } else {
                Err(ParseError { at: q, kind: ParseErrorKind::TrailingCharacters })
            }
        },
    }
}

/// Parses a whole text as one number literal.
pub fn parse_number(text: &str) -> (r: Result<Value, ParseError>)
    ensures
        match r {
            Ok(v) => spec_parse_number_text(text@) == Some(v@),
            Err(e) => spec_parse_number_text(text@) is None,
        },
{
    let cs = chars_of(text);
    let i = skip_ws(&cs, 0);
    match parse_number_at(&cs, i) {
        Err(er) => Err(er),
        Ok(t) => {
            let q = skip_ws(&cs, t.1);
            if q == cs.len() {
                Ok(Value::Number(t.0))
            } else {
                Err(ParseError { at: q, kind: ParseErrorKind::TrailingCharacters })
            }
        },
    }
}

/// Parses a whole text as one string literal.
pub fn parse_string(text: &str) -> (r: Result<Value, ParseError>)
    ensures
        match r {
            Ok(v) => spec_parse_string_text(text@) == Some(v@),
            Err(e) => spec_parse_string_text(text@) is None,
        },
{
    let cs = chars_of(text);
    let i = skip_ws(&cs, 0);
    match parse_string_at(&cs, i) {
        Err(er) => Err(er),
        Ok(t) => {
            let q = skip_ws(&cs, t.1);
            if q == cs.len() {
                Ok(Value::StringLiteral(t.0))
            } else {
                Err(ParseError { at: q, kind: ParseErrorKind::TrailingCharacters })
            }
        },
    }
}

/// Parses a whole text as one boolean literal.
pub fn parse_boolean(text: &str) -> (r: Result<Value, ParseError>)
    ensures
        match r {
            Ok(v) => spec_parse_boolean_text(text@) == Some(v@),
            Err(e) => spec_parse_boolean_text(text@) is None,
        },
{
    let cs = chars_of(text);
    let i = skip_ws(&cs, 0);
    let e = ident_end(&cs, i);
    if e == i {
        return Err(ParseError { at: i, kind: ParseErrorKind::ExpectedIdentifier });
    }
    let q = skip_ws(&cs, e);
    if q != cs.len() {
        return Err(ParseError { at: q, kind: ParseErrorKind::TrailingCharacters });
    }
    let word = string_from_range(&cs, i, e);
    if str_eq(word.as_str(), "true") {
        Ok(Value::Boolean(true))
    } else if str_eq(word.as_str(), "false") {
        Ok(Value::Boolean(false))
    } else {
        Err(ParseError { at: i, kind: ParseErrorKind::ExpectedValue })
    }
}

/// Parses a whole text as one hex color.
pub fn parse_hex_color(text: &str) -> (r: Result<Value, ParseError>)
    ensures
        match r {
            Ok(v) => spec_parse_hex_text(text@) == Some(v@),
            Err(e) => spec_parse_hex_text(text@) is None,
        },
{
    let cs = chars_of(text);
    let i = skip_ws(&cs, 0);
    match parse_hex_at(&cs, i) {
        Err(er) => Err(er),
        Ok(t) => {
            let q = skip_ws(&cs, t.1);
            if q == cs.len() {
                Ok(t.0)
            } else {
                Err(ParseError { at: q, kind: ParseErrorKind::TrailingCharacters })
            }
        },
    }
}

/// Parses a whole text as one RGB color.
pub fn parse_rgb_color(text: &str) -> (r: Result<Value, ParseError>)
    ensures
        match r {
            Ok(v) => spec_parse_rgb_text(text@) == Some(v@),
            Err(e) => spec_parse_rgb_text(text@) is None,
        },
{
    let cs = chars_of(text);
    let i = skip_ws(&cs, 0);
    let e = ident_end(&cs, i);
    if e == i {
        return Err(ParseError { at: i, kind: ParseErrorKind::ExpectedIdentifier });
    }
    let word = string_from_range(&cs, i, e);
    if !str_eq(word.as_str(), "RGB") {
        return Err(ParseError { at: i, kind: ParseErrorKind::ExpectedValue });
    }
    match parse_rgb_tail(&cs, e) {
        Err(er) => Err(er),
        Ok(t) => {
            let q = skip_ws(&cs, t.1);
            if q == cs.len() {
                Ok(t.0)
            } else {
                Err(ParseError { at: q, kind: ParseErrorKind::TrailingCharacters })
            }
        },
    }
}

/// Parses a whole text as one dimension constructor.
pub fn parse_udim2(text: &str) -> (r: Result<Value, ParseError>)
    ensures
        match r {
            Ok(v) => spec_parse_udim2_text(text@) == Some(v@),
            Err(e) => spec_parse_udim2_text(text@) is None,
        },
{
    let cs = chars_of(text);
    let i = skip_ws(&cs, 0);
    let e = ident_end(&cs, i);
    if e == i {
        return Err(ParseError { at: i, kind: ParseErrorKind::ExpectedIdentifier });
    }
    let word = string_from_range(&cs, i, e);
    if !str_eq(word.as_str(), "UDim2") {
        return Err(ParseError { at: i, kind: ParseErrorKind::ExpectedValue });
    }
    match parse_udim2_tail(&cs, e) {
        Err(er) => Err(er),
        Ok(t) => {
            let q = skip_ws(&cs, t.1);
            if q == cs.len() {
                Ok(t.0)
            } else {
                Err(ParseError { at: q, kind: ParseErrorKind::TrailingCharacters })
            }
        },
    }
}

/// Parses a whole text as one property assignment, returned as a property
/// node.
pub fn parse_prop_assignment(text: &str) -> (r: Result<RgNode, ParseError>)
    ensures
        match r {
            Ok(n) => spec_parse_prop_text(text@) is Some && n@ == RgNodeView::Property(
                spec_parse_prop_text(text@).unwrap(),
            ),
            Err(e) => spec_parse_prop_text(text@) is None,
        },
{
    let cs = chars_of(text);
    let i = skip_ws(&cs, 0);
    match parse_property_at(&cs, i) {
        Err(er) => Err(er),
        Ok(t) => {
            let q = skip_ws(&cs, t.1);
            if q == cs.len() {
                Ok(RgNode::Property(t.0))
            } else {
                Err(ParseError { at: q, kind: ParseErrorKind::TrailingCharacters })
            }
        },
    }
}

// ------------------------------------------------------------------
// Laws
// ------------------------------------------------------------------

/// The character spelling one decimal digit value.
pub open spec fn spec_digit_char_of(x: u8) -> char {
    if x == 0 {
        '0'
    } else if x == 1 {
        '1'
    } else if x == 2 {
        '2'
    } else if x == 3 {
        '3'
    } else if x == 4 {
        '4'
    } else if x == 5 {
        '5'
    } else if x == 6 {
        '6'
    } else if x == 7 {
        '7'
    } else if x == 8 {
        '8'
    } else {
        '9'
    }
}

/// The characters spelling a sequence of digit values.
pub open spec fn spec_digit_chars(ds: Seq<u8>) -> Seq<char> {
    ds.map_values(|x: u8| spec_digit_char_of(x))
}

/// The text of a decimal number literal: its sign, its integer digits, and,
/// when it has a fractional part, a point and its fraction digits.
pub open spec fn spec_render_decimal(d: DecimalView) -> Seq<char> {
    let sign: Seq<char> = if d.negative {
        seq!['-']
    } else {
        Seq::empty()
    };
    let frac: Seq<char> = if d.frac_digits.len() == 0 {
        Seq::empty()
    } else {
        seq!['.'] + spec_digit_chars(d.frac_digits)
    };
    sign + spec_digit_chars(d.int_digits) + frac
}

proof fn lemma_digit_char(x: u8)
    requires
        x < 10,
    ensures
        is_digit_char(spec_digit_char_of(x)),
        spec_digit_val(spec_digit_char_of(x)) == x,
        !is_ws_char(spec_digit_char_of(x)),
        spec_digit_char_of(x) != '-',
        spec_digit_char_of(x) != '.',
{
}

/// A run of digit characters from `a` to `b`, followed by a non-digit or the
/// end of the text, scans exactly to `b`.
proof fn lemma_scan_digits_run(s: Seq<char>, a: int, b: int)
    requires
        0 <= a <= b <= s.len(),
        forall|t: int| a <= t < b ==> is_digit_char(s[t]),
        b == s.len() || !is_digit_char(s[b]),
    ensures
        spec_scan_digits(s, a) == b,
    decreases b - a,
{
    if a < b {
        lemma_scan_digits_run(s, a + 1, b);
    }
}

/// Printing a number literal and parsing the result gives the literal back:
/// for every well-formed decimal `d`, the whole-text number parse of
/// `spec_render_decimal(d)` yields exactly `d`.
pub proof fn lemma_number_round_trip(d: DecimalView)
    requires
        d.wf(),
    ensures
        spec_parse_number_text(spec_render_decimal(d)) == Some(ValueView::Number(d)),
{
    let s = spec_render_decimal(d);
    let sign: Seq<char> = if d.negative {
        seq!['-']
    } else {
        Seq::empty()
    };
    let sn = sign.len() as int;
    let n = d.int_digits.len() as int;
    let fl = d.frac_digits.len() as int;
    assert forall|x: u8| x < 10 implies is_digit_char(#[trigger] spec_digit_char_of(x))
        && spec_digit_val(spec_digit_char_of(x)) == x && !is_ws_char(spec_digit_char_of(x))
        && spec_digit_char_of(x) != '-' && spec_digit_char_of(x) != '.' by {
        lemma_digit_char(x);
    }
    assert(s.len() == sn + n + (if fl == 0 { 0int } else { 1 + fl }));
    assert(forall|t: int| 0 <= t < n ==> s[sn + t] == spec_digit_char_of(d.int_digits[t]));
    assert(forall|t: int| 0 <= t < fl ==> s[sn + n + 1 + t] == spec_digit_char_of(
        d.frac_digits[t],
    ));
    // no leading whitespace
    if d.negative {
        assert(s[0] == '-');
    } else {
        assert(s[0] == spec_digit_char_of(d.int_digits[0]));
    }
    assert(spec_skip_ws(s, 0) == 0);
    // the sign is seen exactly when the literal is negative
    if !d.negative {
        assert(s[0] != '-');
    }
    // the run of integer digits
    assert(forall|t: int| sn <= t < sn + n ==> is_digit_char(s[t]));
    if fl == 0 {
        lemma_scan_digits_run(s, sn, sn + n);
        assert(spec_scan_digits(s, sn) == sn + n);
        assert(spec_digit_seq(s, sn, sn + n) =~= d.int_digits);
        let t = spec_parse_number_at(s, 0);
        assert(t == Some(
            (DecimalView { negative: d.negative, int_digits: d.int_digits, frac_digits: Seq::<
                u8,
            >::empty() }, sn + n),
        ));
        assert(Seq::<u8>::empty() =~= d.frac_digits);
        assert(spec_skip_ws(s, sn + n) == s.len());
    } else {
        assert(s[sn + n] == '.');
        lemma_scan_digits_run(s, sn, sn + n);
        assert(forall|t: int| sn + n + 1 <= t < sn + n + 1 + fl ==> is_digit_char(s[t]));
        lemma_scan_digits_run(s, sn + n + 1, sn + n + 1 + fl);
        assert(spec_digit_seq(s, sn, sn + n) =~= d.int_digits);
        assert(spec_digit_seq(s, sn + n + 1, sn + n + 1 + fl) =~= d.frac_digits);
        assert(spec_parse_number_at(s, 0) == Some((d, sn + n + 1 + fl)));
        assert(spec_skip_ws(s, sn + n + 1 + fl) == s.len());
    }
}

} // verus!
