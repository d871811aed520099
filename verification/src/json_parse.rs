//! Parsing of the create-request body.
//!
//! The body must be one JSON object whose `"title"` member is a string;
//! other members are allowed and skipped, a duplicate or missing `"title"`
//! is an error, and nothing may follow the closing brace but whitespace.
//! The spec functions below define that grammar over byte sequences; the
//! exec functions return exactly what the spec functions say, so the
//! contract of `parse_create` pins the accepted language and the decoded
//! title down completely.
//!
//! Positions handed from one sub-parser to the next always lie between the
//! position the sub-parser started at and the end of the input. The helpers
//! `bounded_pos` and `step_pos` clamp them into that range, which keeps the
//! recursive spec functions visibly well-founded; on every reachable path
//! the clamp returns its argument unchanged.

use vstd::prelude::*;

verus! {

/// JSON whitespace: space, tab, line feed, carriage return.
pub open spec fn is_ws(b: u8) -> bool {
    b == 32 || b == 9 || b == 10 || b == 13
}

/// An ASCII decimal digit.
pub open spec fn is_digit(b: u8) -> bool {
    48 <= b <= 57
}

/// An ASCII hex digit, either case.
pub open spec fn is_hex_digit(b: u8) -> bool {
    is_digit(b) || (97 <= b <= 102) || (65 <= b <= 70)
}

/// Value of a hex digit.
pub open spec fn hex_val(b: u8) -> int {
    if is_digit(b) {
        b - 48
    } else if 97 <= b <= 102 {
        b - 87
    } else {
        b - 55
    }
}

/// Clamps `p` into `[pos, limit]`; the identity whenever `p` already lies
/// in that range, as every reachable sub-parser result does.
pub open spec fn bounded_pos(limit: int, pos: int, p: int) -> int {
    if pos <= p <= limit {
        p
    } else {
        pos
    }
}

/// Clamps `p` into `(pos, limit]`; the identity whenever `p` already lies
/// in that range, as every reachable sub-parser result does.
pub open spec fn step_pos(limit: int, pos: int, p: int) -> int {
    if pos < p <= limit {
        p
    } else {
        limit
    }
}

/// First position at or after `pos` that does not hold whitespace.
pub open spec fn spec_skip_ws(s: Seq<u8>, pos: int) -> int
    decreases s.len() - pos,
        when 0 <= pos <= s.len()
{
    if pos < s.len() && is_ws(s[pos]) {
        spec_skip_ws(s, pos + 1)
    } else {
        pos
    }
}

/// The four hex digits at `pos` read as one number.
pub open spec fn spec_hex4(s: Seq<u8>, pos: int) -> int {
    hex_val(s[pos]) * 4096 + hex_val(s[pos + 1]) * 256 + hex_val(s[pos + 2]) * 16 + hex_val(
        s[pos + 3],
    )
}

/// Whether four hex digits stand at `pos`.
pub open spec fn spec_is_hex4(s: Seq<u8>, pos: int) -> bool {
    &&& pos + 4 <= s.len()
    &&& is_hex_digit(s[pos])
    &&& is_hex_digit(s[pos + 1])
    &&& is_hex_digit(s[pos + 2])
    &&& is_hex_digit(s[pos + 3])
}

/// UTF-8 encoding of the code point `cp`.
pub open spec fn utf8_encode(cp: int) -> Seq<u8>
    recommends
        0 <= cp <= 0x10FFFF,
{
    if cp < 0x80 {
        seq![cp as u8]
    } else if cp < 0x800 {
        seq![(192 + cp / 64) as u8, (128 + cp % 64) as u8]
    } else if cp < 0x10000 {
        seq![(224 + cp / 4096) as u8, (128 + (cp / 64) % 64) as u8, (128 + cp % 64) as u8]
    } else {
        seq![
            (240 + cp / 262144) as u8,
            (128 + (cp / 4096) % 64) as u8,
            (128 + (cp / 64) % 64) as u8,
            (128 + cp % 64) as u8,
        ]
    }
}

/// Rest of a JSON string after its opening quote, starting at `pos`, with
/// `acc` the bytes decoded so far. Yields the decoded bytes and the
/// position after the closing quote. Escapes are decoded; a surrogate
/// pair in `\u` escapes becomes one code point; a lone surrogate, a raw
/// control byte or an unterminated string is an error.
pub open spec fn spec_str_body(s: Seq<u8>, pos: int, acc: Seq<u8>) -> Option<(Seq<u8>, int)>
    decreases s.len() - pos,
        when 0 <= pos <= s.len()
{
    if pos >= s.len() {
        None
    } else {
        let b = s[pos];
        if b == 34 {  // '"'
            Some((acc, pos + 1))
        } else if b == 92 {  // '\'
            if pos + 1 >= s.len() {
                None
            } else {
                let e = s[pos + 1];
                if e == 34 || e == 92 || e == 47 {
                    spec_str_body(s, pos + 2, acc.push(e))
                } else if e == 98 {  // \b
                    spec_str_body(s, pos + 2, acc.push(8))
                } else if e == 102 {  // \f
                    spec_str_body(s, pos + 2, acc.push(12))
                } else if e == 110 {  // \n
                    spec_str_body(s, pos + 2, acc.push(10))
                } else if e == 114 {  // \r
                    spec_str_body(s, pos + 2, acc.push(13))
                } else if e == 116 {  // \t
                    spec_str_body(s, pos + 2, acc.push(9))
                } else if e == 117 {  // \u
                    if !spec_is_hex4(s, pos + 2) {
                        None
                    } else {
                        let cp = spec_hex4(s, pos + 2);
                        if 0xD800 <= cp < 0xDC00 {
                            // high surrogate: a low surrogate must follow
                            if pos + 12 <= s.len() && s[pos + 6] == 92 && s[pos + 7] == 117
                                && spec_is_hex4(s, pos + 8) {
                                let lo = spec_hex4(s, pos + 8);
                                if 0xDC00 <= lo < 0xE000 {
                                    spec_str_body(
                                        s,
                                        pos + 12,
                                        acc + utf8_encode(
                                            0x10000 + (cp - 0xD800) * 0x400 + (lo - 0xDC00),
                                        ),
                                    )
                                } else {
                                    None
                                }
                            } else {
                                None
                            }
                        } else if 0xDC00 <= cp < 0xE000 {
                            None
                        } else {
                            spec_str_body(s, pos + 6, acc + utf8_encode(cp))
                        }
                    }
                } else {
                    None
                }
            }
        } else if b < 32 {
            None
        } else {
            spec_str_body(s, pos + 1, acc.push(b))
        }
    }
}

/// First position at or after `pos` without a decimal digit.
pub open spec fn spec_skip_digits(s: Seq<u8>, pos: int) -> int
    decreases s.len() - pos,
        when 0 <= pos <= s.len()
{
    if pos < s.len() && is_digit(s[pos]) {
        spec_skip_digits(s, pos + 1)
    } else {
        pos
    }
}

/// Integer part of a JSON number at `pos` (sign already consumed):
/// one zero, or a nonzero digit followed by digits.
pub open spec fn spec_num_int(s: Seq<u8>, pos: int) -> Option<int> {
    if pos < s.len() && s[pos] == 48 {
        Some(pos + 1)
    } else if pos < s.len() && is_digit(s[pos]) {
        Some(spec_skip_digits(s, pos))
    } else {
        None
    }
}

/// Optional fraction part at `pos`: a dot needs at least one digit.
pub open spec fn spec_num_frac(s: Seq<u8>, pos: int) -> Option<int> {
    if pos < s.len() && s[pos] == 46 {  // '.'
        if pos + 1 < s.len() && is_digit(s[pos + 1]) {
            Some(spec_skip_digits(s, pos + 1))
        } else {
            None
        }
    } else {
        Some(pos)
    }
}

/// Optional exponent part at `pos`: `e`/`E`, an optional sign, digits.
pub open spec fn spec_num_exp(s: Seq<u8>, pos: int) -> Option<int> {
    if pos < s.len() && (s[pos] == 101 || s[pos] == 69) {
        let p1 = if pos + 1 < s.len() && (s[pos + 1] == 43 || s[pos + 1] == 45) {
            pos + 2
        } else {
            pos + 1
        };
        if p1 < s.len() && is_digit(s[p1]) {
            Some(spec_skip_digits(s, p1))
        } else {
            None
        }
    } else {
        Some(pos)
    }
}

/// A whole JSON number at `pos`: optional minus, integer part, optional
/// fraction and exponent. Yields the position after it.
pub open spec fn spec_skip_number(s: Seq<u8>, pos: int) -> Option<int> {
    let p0 = if pos < s.len() && s[pos] == 45 {
        pos + 1
    } else {
        pos
    };
    match spec_num_int(s, p0) {
        None => None,
        Some(p1) => match spec_num_frac(s, p1) {
            None => None,
            Some(p2) => spec_num_exp(s, p2),
        },
    }
}

/// One JSON value at `pos` (no leading whitespace): a string, object,
/// array, number, `true`, `false` or `null`. Yields the position after it.
pub open spec fn spec_skip_value(s: Seq<u8>, pos: int) -> Option<int>
    decreases s.len() - pos, 0int,
        when 0 <= pos <= s.len()
{
    if pos >= s.len() {
        None
    } else {
        let b = s[pos];
        if b == 34 {  // '"'
            match spec_str_body(s, pos + 1, Seq::empty()) {
                Some((dec, p)) => Some(p),
                None => None,
            }
        } else if b == 123 {  // '{'
            spec_skip_object(s, pos + 1)
        } else if b == 91 {  // '['
            spec_skip_array(s, pos + 1)
        } else if b == 116 {  // 't'
            if pos + 4 <= s.len() && s[pos + 1] == 114 && s[pos + 2] == 117 && s[pos + 3] == 101 {
                Some(pos + 4)
            } else {
                None
            }
        } else if b == 102 {  // 'f'
            if pos + 5 <= s.len() && s[pos + 1] == 97 && s[pos + 2] == 108 && s[pos + 3] == 115
                && s[pos + 4] == 101 {
                Some(pos + 5)
            } else {
                None
            }
        } else if b == 110 {  // 'n'
            if pos + 4 <= s.len() && s[pos + 1] == 117 && s[pos + 2] == 108 && s[pos + 3] == 108 {
                Some(pos + 4)
            } else {
                None
            }
        } else if b == 45 || is_digit(b) {
            spec_skip_number(s, pos)
        } else {
            None
        }
    }
}

/// Rest of a JSON object after its opening brace: `}` or members.
pub open spec fn spec_skip_object(s: Seq<u8>, pos: int) -> Option<int>
    decreases s.len() - pos, 2int,
        when 0 <= pos <= s.len()
{
    let q = bounded_pos(s.len() as int, pos, spec_skip_ws(s, pos));
    if q < s.len() && s[q] == 125 {  // '}'
        Some(q + 1)
    } else {
        spec_skip_members(s, q)
    }
}

/// One or more `"key": value` members starting at `pos` (whitespace
/// skipped), each followed by `,` and another member or by `}`.
pub open spec fn spec_skip_members(s: Seq<u8>, pos: int) -> Option<int>
    decreases s.len() - pos, 1int,
        when 0 <= pos <= s.len()
{
    if pos < s.len() && s[pos] == 34 {
        match spec_str_body(s, pos + 1, Seq::empty()) {
            Some((key, p1x)) => {
                let p1 = step_pos(s.len() as int, pos, p1x);
                let q = bounded_pos(s.len() as int, p1, spec_skip_ws(s, p1));
                if q < s.len() && s[q] == 58 {  // ':'
                    let r = bounded_pos(s.len() as int, q + 1, spec_skip_ws(s, q + 1));
                    match spec_skip_value(s, r) {
                        Some(p2x) => {
                            let p2 = step_pos(s.len() as int, r, p2x);
                            let q2 = bounded_pos(s.len() as int, p2, spec_skip_ws(s, p2));
                            if q2 < s.len() && s[q2] == 44 {  // ','
                                spec_skip_members(
                                    s,
                                    bounded_pos(s.len() as int, q2 + 1, spec_skip_ws(s, q2 + 1)),
                                )
                            } else if q2 < s.len() && s[q2] == 125 {  // '}'
                                Some(q2 + 1)
                            } else {
                                None
                            }
                        },
                        None => None,
                    }
                } else {
                    None
                }
            },
            None => None,
        }
    } else {
        None
    }
}

/// Rest of a JSON array after its opening bracket: `]` or elements.
pub open spec fn spec_skip_array(s: Seq<u8>, pos: int) -> Option<int>
    decreases s.len() - pos, 2int,
        when 0 <= pos <= s.len()
{
    let q = bounded_pos(s.len() as int, pos, spec_skip_ws(s, pos));
    if q < s.len() && s[q] == 93 {  // ']'
        Some(q + 1)
    } else {
        spec_skip_elements(s, q)
    }
}

/// One or more array elements starting at `pos` (whitespace skipped),
/// each followed by `,` and another element or by `]`.
pub open spec fn spec_skip_elements(s: Seq<u8>, pos: int) -> Option<int>
    decreases s.len() - pos, 1int,
        when 0 <= pos <= s.len()
{
    match spec_skip_value(s, pos) {
        Some(p2x) => {
            let p2 = step_pos(s.len() as int, pos, p2x);
            let q2 = bounded_pos(s.len() as int, p2, spec_skip_ws(s, p2));
            if q2 < s.len() && s[q2] == 44 {  // ','
                spec_skip_elements(s, bounded_pos(s.len() as int, q2 + 1, spec_skip_ws(s, q2 + 1)))
            } else if q2 < s.len() && s[q2] == 93 {  // ']'
                Some(q2 + 1)
            } else {
                None
            }
        },
        None => None,
    }
}

/// The bytes of the member name `title`.
pub open spec fn title_key() -> Seq<u8> {
    seq![116u8, 105u8, 116u8, 108u8, 101u8]
}

/// After the whole object: only whitespace may remain, and the title
/// must have been found.
pub open spec fn spec_create_end(s: Seq<u8>, pos: int, found: Option<Seq<u8>>) -> Option<Seq<u8>>
    recommends
        0 <= pos <= s.len(),
{
    if spec_skip_ws(s, pos) == s.len() {
        found
    } else {
        None
    }
}

/// Members of the create-request object, starting at a member (whitespace
/// skipped). The `title` member must be a string and must not repeat;
/// other members hold any JSON value and are skipped.
pub open spec fn spec_create_members(s: Seq<u8>, pos: int, found: Option<Seq<u8>>) -> Option<
    Seq<u8>,
>
    decreases s.len() - pos, 1int,
        when 0 <= pos <= s.len()
{
    if pos < s.len() && s[pos] == 34 {
        match spec_str_body(s, pos + 1, Seq::empty()) {
            Some((key, p1x)) => {
                let p1 = step_pos(s.len() as int, pos, p1x);
                let q = bounded_pos(s.len() as int, p1, spec_skip_ws(s, p1));
                if q < s.len() && s[q] == 58 {  // ':'
                    let r = bounded_pos(s.len() as int, q + 1, spec_skip_ws(s, q + 1));
                    if key == title_key() {
                        if found is Some {
                            None
                        } else if r < s.len() && s[r] == 34 {
                            match spec_str_body(s, r + 1, Seq::empty()) {
                                Some((val, p2x)) => spec_create_after(
                                    s,
                                    step_pos(s.len() as int, r, p2x),
                                    Some(val),
                                ),
                                None => None,
                            }
                        } else {
                            None
                        }
                    } else {
                        match spec_skip_value(s, r) {
                            Some(p2x) => spec_create_after(
                                s,
                                step_pos(s.len() as int, r, p2x),
                                found,
                            ),
                            None => None,
                        }
                    }
                } else {
                    None
                }
            },
            None => None,
        }
    } else {
        None
    }
}

/// After one member's value: `,` and another member, or `}` and the end.
pub open spec fn spec_create_after(s: Seq<u8>, pos: int, found: Option<Seq<u8>>) -> Option<Seq<u8>>
    decreases s.len() - pos, 0int,
        when 0 <= pos <= s.len()
{
    let q2 = bounded_pos(s.len() as int, pos, spec_skip_ws(s, pos));
    if q2 < s.len() && s[q2] == 44 {  // ','
        spec_create_members(s, bounded_pos(s.len() as int, q2 + 1, spec_skip_ws(s, q2 + 1)), found)
    } else if q2 < s.len() && s[q2] == 125 {  // '}'
        spec_create_end(s, q2 + 1, found)
    } else {
        None
    }
}

/// The accepted create-request bodies: one JSON object with a string
/// `title` member, other members free, nothing but whitespace around it.
/// Yields the decoded title bytes.
pub open spec fn spec_parse_create(s: Seq<u8>) -> Option<Seq<u8>> {
    let p = bounded_pos(s.len() as int, 0, spec_skip_ws(s, 0));
    if p < s.len() && s[p] == 123 {  // '{'
        let q = bounded_pos(s.len() as int, p + 1, spec_skip_ws(s, p + 1));
        if q < s.len() && s[q] == 125 {  // '}': no members, so no title
            spec_create_end(s, q + 1, None)
        } else {
            spec_create_members(s, q, None)
        }
    } else {
        None
    }
}

/// View of an optional byte vector as an optional byte sequence.
pub open spec fn opt_view(o: Option<Vec<u8>>) -> Option<Seq<u8>> {
    match o {
        Some(v) => Some(v@),
        None => None,
    }
}

fn skip_ws(s: &[u8], pos: usize) -> (r: usize)
    requires
        pos <= s.len(),
    ensures
        r as int == spec_skip_ws(s@, pos as int),
        pos <= r <= s.len(),
{
    let mut i: usize = pos;
    while i < s.len() && (s[i] == 32 || s[i] == 9 || s[i] == 10 || s[i] == 13)
        invariant
            pos <= i <= s.len(),
            spec_skip_ws(s@, pos as int) == spec_skip_ws(s@, i as int),
        decreases s.len() - i,
    {
        i = i + 1;
    }
    i
}

fn skip_digits(s: &[u8], pos: usize) -> (r: usize)
    requires
        pos <= s.len(),
    ensures
        r as int == spec_skip_digits(s@, pos as int),
        pos <= r <= s.len(),
{
    let mut i: usize = pos;
    while i < s.len() && 48 <= s[i] && s[i] <= 57
        invariant
            pos <= i <= s.len(),
            spec_skip_digits(s@, pos as int) == spec_skip_digits(s@, i as int),
        decreases s.len() - i,
    {
        i = i + 1;
    }
    i
}

fn hex_digit_val(b: u8) -> (r: u8)
    requires
        is_hex_digit(b),
    ensures
        r as int == hex_val(b),
{
    if b >= 97 {
        b - 87
    } else if b >= 65 {
        b - 55
    } else {
        b - 48
    }
}

fn is_hex_digit_byte(b: u8) -> (r: bool)
    ensures
        r == is_hex_digit(b),
{
    (48 <= b && b <= 57) || (97 <= b && b <= 102) || (65 <= b && b <= 70)
}

fn hex4(s: &[u8], pos: usize) -> (r: Option<u32>)
    requires
        pos <= s.len(),
    ensures
        r is Some <==> spec_is_hex4(s@, pos as int),
        r is Some ==> r.unwrap() as int == spec_hex4(s@, pos as int) && r.unwrap() <= 0xFFFF,
{
    if s.len() - pos < 4 {
        return None;
    }
    let a = s[pos];
    let b = s[pos + 1];
    let c = s[pos + 2];
    let d = s[pos + 3];
    if !is_hex_digit_byte(a) || !is_hex_digit_byte(b) || !is_hex_digit_byte(c)
        || !is_hex_digit_byte(d) {
        return None;
    }
    let v: u32 = (hex_digit_val(a) as u32) * 4096 + (hex_digit_val(b) as u32) * 256 + (
    hex_digit_val(c) as u32) * 16 + (hex_digit_val(d) as u32);
    Some(v)
}

/// Appends the UTF-8 encoding of the code point `cp`.
fn push_utf8(acc: &mut Vec<u8>, cp: u32)
    requires
        cp <= 0x10FFFF,
    ensures
        final(acc)@ == old(acc)@ + utf8_encode(cp as int),
{
    if cp < 0x80 {
        acc.push(cp as u8);
    } else if cp < 0x800 {
        acc.push((192 + cp / 64) as u8);
        acc.push((128 + cp % 64) as u8);
    } else if cp < 0x10000 {
        acc.push((224 + cp / 4096) as u8);
        acc.push((128 + (cp / 64) % 64) as u8);
        acc.push((128 + cp % 64) as u8);
    } else {
        acc.push((240 + cp / 262144) as u8);
        acc.push((128 + (cp / 4096) % 64) as u8);
        acc.push((128 + (cp / 64) % 64) as u8);
        acc.push((128 + cp % 64) as u8);
    }
    proof {
        assert(acc@ =~= old(acc)@ + utf8_encode(cp as int));
    }
}

fn str_body(s: &[u8], pos: usize, acc: Vec<u8>) -> (r: Option<(Vec<u8>, usize)>)
    requires
        pos <= s.len(),
    ensures
        ({
            let sp = spec_str_body(s@, pos as int, acc@);
            match r {
                Some((v, p)) => sp == Some((v@, p as int)) && pos < p <= s.len(),
                None => sp is None,
            }
        }),
    decreases s.len() - pos,
{
    if pos >= s.len() {
        return None;
    }
    let b = s[pos];
    if b == 34 {
        return Some((acc, pos + 1));
    }
    if b == 92 {
        if pos + 1 >= s.len() {
            return None;
        }
        let e = s[pos + 1];
        if e == 34 || e == 92 || e == 47 {
            let mut a = acc;
            a.push(e);
            return str_body(s, pos + 2, a);
        }
        if e == 98 {
            let mut a = acc;
            a.push(8);
            return str_body(s, pos + 2, a);
        }
        if e == 102 {
            let mut a = acc;
            a.push(12);
            return str_body(s, pos + 2, a);
        }
        if e == 110 {
            let mut a = acc;
            a.push(10);
            return str_body(s, pos + 2, a);
        }
        if e == 114 {
            let mut a = acc;
            a.push(13);
            return str_body(s, pos + 2, a);
        }
        if e == 116 {
            let mut a = acc;
            a.push(9);
            return str_body(s, pos + 2, a);
        }
        if e == 117 {
            match hex4(s, pos + 2) {
                None => {
                    return None;
                },
                Some(cp) => {
                    if 0xD800 <= cp && cp < 0xDC00 {
                        if s.len() - pos >= 12 && s[pos + 6] == 92 && s[pos + 7] == 117 {
                            match hex4(s, pos + 8) {
                                None => {
                                    return None;
                                },
                                Some(lo) => {
                                    if 0xDC00 <= lo && lo < 0xE000 {
                                        let mut a = acc;
                                        let comb: u32 = 0x10000 + (cp - 0xD800) * 0x400 + (lo
                                            - 0xDC00);
                                        push_utf8(&mut a, comb);
                                        return str_body(s, pos + 12, a);
                                    } else {
                                        return None;
                                    }
                                },
                            }
                        } else {
                            return None;
                        }
                    } else if 0xDC00 <= cp && cp < 0xE000 {
                        return None;
                    } else {
                        let mut a = acc;
                        push_utf8(&mut a, cp);
                        return str_body(s, pos + 6, a);
                    }
                },
            }
        }
        return None;
    }
    if b < 32 {
        return None;
    }
    let mut a = acc;
    a.push(b);
    str_body(s, pos + 1, a)
}

fn num_int(s: &[u8], pos: usize) -> (r: Option<usize>)
    requires
        pos <= s.len(),
    ensures
        ({
            let sp = spec_num_int(s@, pos as int);
            match r {
                Some(p) => sp == Some(p as int) && pos < p <= s.len(),
                None => sp is None,
            }
        }),
{
    if pos < s.len() && s[pos] == 48 {
        Some(pos + 1)
    } else if pos < s.len() && 48 <= s[pos] && s[pos] <= 57 {
        proof {
            assert(spec_skip_digits(s@, pos as int) == spec_skip_digits(s@, pos as int + 1));
        }
        Some(skip_digits(s, pos + 1))
    } else {
        None
    }
}

fn num_frac(s: &[u8], pos: usize) -> (r: Option<usize>)
    requires
        pos <= s.len(),
    ensures
        ({
            let sp = spec_num_frac(s@, pos as int);
            match r {
                Some(p) => sp == Some(p as int) && pos <= p <= s.len(),
                None => sp is None,
            }
        }),
{
    if pos < s.len() && s[pos] == 46 {
        if pos + 1 < s.len() && 48 <= s[pos + 1] && s[pos + 1] <= 57 {
            Some(skip_digits(s, pos + 1))
        } else {
            None
        }
    } else {
        Some(pos)
    }
}

fn num_exp(s: &[u8], pos: usize) -> (r: Option<usize>)
    requires
        pos <= s.len(),
    ensures
        ({
            let sp = spec_num_exp(s@, pos as int);
            match r {
                Some(p) => sp == Some(p as int) && pos <= p <= s.len(),
                None => sp is None,
            }
        }),
{
    if pos < s.len() && (s[pos] == 101 || s[pos] == 69) {
        let p1 = if pos + 1 < s.len() && (s[pos + 1] == 43 || s[pos + 1] == 45) {
            pos + 2
        } else {
            pos + 1
        };
        if p1 < s.len() && 48 <= s[p1] && s[p1] <= 57 {
            Some(skip_digits(s, p1))
        } else {
            None
        }
    } else {
        Some(pos)
    }
}

fn skip_number(s: &[u8], pos: usize) -> (r: Option<usize>)
    requires
        pos <= s.len(),
    ensures
        ({
            let sp = spec_skip_number(s@, pos as int);
            match r {
                Some(p) => sp == Some(p as int) && pos < p <= s.len(),
                None => sp is None,
            }
        }),
{
    let p0 = if pos < s.len() && s[pos] == 45 {
        pos + 1
    } else {
        pos
    };
    match num_int(s, p0) {
        None => None,
        Some(p1) => match num_frac(s, p1) {
            None => None,
            Some(p2) => num_exp(s, p2),
        },
    }
}

fn skip_value(s: &[u8], pos: usize) -> (r: Option<usize>)
    requires
        pos <= s.len(),
    ensures
        ({
            let sp = spec_skip_value(s@, pos as int);
            match r {
                Some(p) => sp == Some(p as int) && pos < p <= s.len(),
                None => sp is None,
            }
        }),
    decreases s.len() - pos, 0int,
{
    if pos >= s.len() {
        return None;
    }
    let b = s[pos];
    if b == 34 {
        match str_body(s, pos + 1, Vec::new()) {
            Some((_dec, p)) => Some(p),
            None => None,
        }
    } else if b == 123 {
        skip_object(s, pos + 1)
    } else if b == 91 {
        skip_array(s, pos + 1)
    } else if b == 116 {
        if s.len() - pos >= 4 && s[pos + 1] == 114 && s[pos + 2] == 117 && s[pos + 3] == 101 {
            Some(pos + 4)
        } else {
            None
        }
    } else if b == 102 {
        if s.len() - pos >= 5 && s[pos + 1] == 97 && s[pos + 2] == 108 && s[pos + 3] == 115 && s[pos
            + 4] == 101 {
            Some(pos + 5)
        } else {
            None
        }
    } else if b == 110 {
        if s.len() - pos >= 4 && s[pos + 1] == 117 && s[pos + 2] == 108 && s[pos + 3] == 108 {
            Some(pos + 4)
        } else {
            None
        }
    } else if b == 45 || (48 <= b && b <= 57) {
        skip_number(s, pos)
    } else {
        None
    }
}

fn skip_object(s: &[u8], pos: usize) -> (r: Option<usize>)
    requires
        pos <= s.len(),
    ensures
        ({
            let sp = spec_skip_object(s@, pos as int);
            match r {
                Some(p) => sp == Some(p as int) && pos < p <= s.len(),
                None => sp is None,
            }
        }),
    decreases s.len() - pos, 2int,
{
    let q = skip_ws(s, pos);
    if q < s.len() && s[q] == 125 {
        Some(q + 1)
    } else {
        skip_members(s, q)
    }
}

fn skip_members(s: &[u8], pos: usize) -> (r: Option<usize>)
    requires
        pos <= s.len(),
    ensures
        ({
            let sp = spec_skip_members(s@, pos as int);
            match r {
                Some(p) => sp == Some(p as int) && pos < p <= s.len(),
                None => sp is None,
            }
        }),
    decreases s.len() - pos, 1int,
{
    if pos >= s.len() || s[pos] != 34 {
        return None;
    }
    match str_body(s, pos + 1, Vec::new()) {
        None => None,
        Some((_key, p1)) => {
            let q = skip_ws(s, p1);
            if q < s.len() && s[q] == 58 {
                let r0 = skip_ws(s, q + 1);
                match skip_value(s, r0) {
                    None => None,
                    Some(p2) => {
                        let q2 = skip_ws(s, p2);
                        if q2 < s.len() && s[q2] == 44 {
                            let nxt = skip_ws(s, q2 + 1);
                            skip_members(s, nxt)
                        } else if q2 < s.len() && s[q2] == 125 {
                            Some(q2 + 1)
                        } else {
                            None
                        }
                    },
                }
            } else {
                None
            }
        },
    }
}

fn skip_array(s: &[u8], pos: usize) -> (r: Option<usize>)
    requires
        pos <= s.len(),
    ensures
        ({
            let sp = spec_skip_array(s@, pos as int);
            match r {
                Some(p) => sp == Some(p as int) && pos < p <= s.len(),
                None => sp is None,
            }
        }),
    decreases s.len() - pos, 2int,
{
    let q = skip_ws(s, pos);
    if q < s.len() && s[q] == 93 {
        Some(q + 1)
    } else {
        skip_elements(s, q)
    }
}

fn skip_elements(s: &[u8], pos: usize) -> (r: Option<usize>)
    requires
        pos <= s.len(),
    ensures
        ({
            let sp = spec_skip_elements(s@, pos as int);
            match r {
                Some(p) => sp == Some(p as int) && pos < p <= s.len(),
                None => sp is None,
            }
        }),
    decreases s.len() - pos, 1int,
{
    match skip_value(s, pos) {
        None => None,
        Some(p2) => {
            let q2 = skip_ws(s, p2);
            if q2 < s.len() && s[q2] == 44 {
                let nxt = skip_ws(s, q2 + 1);
                skip_elements(s, nxt)
            } else if q2 < s.len() && s[q2] == 93 {
                Some(q2 + 1)
            } else {
                None
            }
        },
    }
}

/// The member name `title` as a byte vector.
fn title_key_vec() -> (r: Vec<u8>)
    ensures
        r@ == title_key(),
{
    let mut v: Vec<u8> = Vec::new();
    v.push(116);
    v.push(105);
    v.push(116);
    v.push(108);
    v.push(101);
    proof {
        assert(v@ =~= title_key());
    }
    v
}

fn create_end(s: &[u8], pos: usize, found: Option<Vec<u8>>) -> (r: Option<Vec<u8>>)
    requires
        pos <= s.len(),
    ensures
        ({
            let sp = spec_create_end(s@, pos as int, opt_view(found));
            match r {
                Some(v) => sp == Some(v@),
                None => sp is None,
            }
        }),
{
    let e = skip_ws(s, pos);
    if e == s.len() {
        found
    } else {
        None
    }
}

fn create_members(s: &[u8], pos: usize, found: Option<Vec<u8>>) -> (r: Option<Vec<u8>>)
    requires
        pos <= s.len(),
    ensures
        ({
            let sp = spec_create_members(s@, pos as int, opt_view(found));
            match r {
                Some(v) => sp == Some(v@),
                None => sp is None,
            }
        }),
    decreases s.len() - pos, 1int,
{
    if pos >= s.len() || s[pos] != 34 {
        return None;
    }
    match str_body(s, pos + 1, Vec::new()) {
        None => None,
        Some((key, p1)) => {
            let q = skip_ws(s, p1);
            if q < s.len() && s[q] == 58 {
                let r0 = skip_ws(s, q + 1);
                let tk = title_key_vec();
                if crate::bytes::bytes_eq(key.as_slice(), tk.as_slice()) {
                    if found.is_some() {
                        return None;
                    }
                    if r0 < s.len() && s[r0] == 34 {
                        match str_body(s, r0 + 1, Vec::new()) {
                            Some((val, p2)) => create_after(s, p2, Some(val)),
                            None => None,
                        }
                    } else {
                        None
                    }
                } else {
                    match skip_value(s, r0) {
                        Some(p2) => create_after(s, p2, found),
                        None => None,
                    }
                }
            } else {
                None
            }
        },
    }
}

fn create_after(s: &[u8], pos: usize, found: Option<Vec<u8>>) -> (r: Option<Vec<u8>>)
    requires
        pos <= s.len(),
    ensures
        ({
            let sp = spec_create_after(s@, pos as int, opt_view(found));
            match r {
                Some(v) => sp == Some(v@),
                None => sp is None,
            }
        }),
    decreases s.len() - pos, 0int,
{
    let q2 = skip_ws(s, pos);
    if q2 < s.len() && s[q2] == 44 {
        let nxt = skip_ws(s, q2 + 1);
        create_members(s, nxt, found)
    } else if q2 < s.len() && s[q2] == 125 {
        create_end(s, q2 + 1, found)
    } else {
        None
    }
}

/// Parses a create-request body. Returns the decoded title exactly when
/// the body lies in the accepted language `spec_parse_create`; any other
/// body is rejected.
pub fn parse_create(body: &[u8]) -> (r: Option<Vec<u8>>)
    ensures
        match r {
            Some(v) => spec_parse_create(body@) == Some(v@),
            None => spec_parse_create(body@) is None,
        },
{
    let p = skip_ws(body, 0);
    if p < body.len() && body[p] == 123 {
        let q = skip_ws(body, p + 1);
        if q < body.len() && body[q] == 125 {
            create_end(body, q + 1, None)
        } else {
            create_members(body, q, None)
        }
    } else {
        None
    }
}

} // verus!
