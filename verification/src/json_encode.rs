//! Rendering of todo records as JSON bytes.
//!
//! A record becomes `{"id":"…","title":"…","completed":…}` and a snapshot
//! becomes a JSON array of those objects in order. String contents are
//! escaped: quote and backslash with a backslash, the named control
//! characters with their short escapes, and other control bytes as
//! `\u00xx`. The spec functions define the output byte for byte and the
//! exec functions produce exactly that.

use vstd::prelude::*;
use crate::todo::{Todo, TodoView};

verus! {

/// Lowercase hex digit for a value below 16.
pub open spec fn hex_digit_lower(v: int) -> u8
    recommends
        0 <= v < 16,
{
    if v < 10 {
        (48 + v) as u8
    } else {
        (87 + v) as u8
    }
}

/// The escape of one string byte.
pub open spec fn esc_byte(b: u8) -> Seq<u8> {
    if b == 34 {  // '"'
        seq![92u8, 34u8]
    } else if b == 92 {  // '\'
        seq![92u8, 92u8]
    } else if b == 8 {
        seq![92u8, 98u8]  // \b
    } else if b == 12 {
        seq![92u8, 102u8]  // \f
    } else if b == 10 {
        seq![92u8, 110u8]  // \n
    } else if b == 13 {
        seq![92u8, 114u8]  // \r
    } else if b == 9 {
        seq![92u8, 116u8]  // \t
    } else if b < 32 {
        seq![92u8, 117u8, 48u8, 48u8, hex_digit_lower(b as int / 16), hex_digit_lower(b as int % 16)]
    } else {
        seq![b]
    }
}

/// Escapes of all bytes from index `i` on, concatenated.
pub open spec fn spec_escape_from(s: Seq<u8>, i: int) -> Seq<u8>
    decreases s.len() - i,
        when 0 <= i <= s.len()
{
    if i >= s.len() {
        Seq::empty()
    } else {
        esc_byte(s[i]) + spec_escape_from(s, i + 1)
    }
}

/// The escaped form of a whole string.
pub open spec fn spec_escape(s: Seq<u8>) -> Seq<u8> {
    spec_escape_from(s, 0)
}

/// `{"id":"`
pub open spec fn lit_id_prefix() -> Seq<u8> {
    seq![123u8, 34u8, 105u8, 100u8, 34u8, 58u8, 34u8]
}

/// `","title":"`
pub open spec fn lit_title_mid() -> Seq<u8> {
    seq![34u8, 44u8, 34u8, 116u8, 105u8, 116u8, 108u8, 101u8, 34u8, 58u8, 34u8]
}

/// `","completed":`
pub open spec fn lit_completed_mid() -> Seq<u8> {
    seq![34u8, 44u8, 34u8, 99u8, 111u8, 109u8, 112u8, 108u8, 101u8, 116u8, 101u8, 100u8, 34u8, 58u8]
}

/// `true`
pub open spec fn lit_true() -> Seq<u8> {
    seq![116u8, 114u8, 117u8, 101u8]
}

/// `false`
pub open spec fn lit_false() -> Seq<u8> {
    seq![102u8, 97u8, 108u8, 115u8, 101u8]
}

/// `{"id":"` and the escaped id.
pub open spec fn spec_id_part(t: TodoView) -> Seq<u8> {
    lit_id_prefix() + spec_escape(t.id)
}

/// `","title":"` and the escaped title.
pub open spec fn spec_title_part(t: TodoView) -> Seq<u8> {
    lit_title_mid() + spec_escape(t.title)
}

/// `","completed":`, the flag and the closing brace.
pub open spec fn spec_completed_part(t: TodoView) -> Seq<u8> {
    lit_completed_mid() + (if t.completed {
        lit_true()
    } else {
        lit_false()
    }) + seq![125u8]
}

/// The JSON object for one record.
pub open spec fn spec_encode_todo(t: TodoView) -> Seq<u8> {
    spec_id_part(t) + spec_title_part(t) + spec_completed_part(t)
}

/// The comma-separated objects for the records from index `i` on.
pub open spec fn spec_encode_items(ts: Seq<TodoView>, i: int) -> Seq<u8>
    decreases ts.len() - i,
        when 0 <= i <= ts.len()
{
    if i >= ts.len() {
        Seq::empty()
    } else {
        (if i > 0 {
            seq![44u8]
        } else {
            Seq::empty()
        }) + spec_encode_todo(ts[i]) + spec_encode_items(ts, i + 1)
    }
}

/// The JSON array for a whole snapshot.
pub open spec fn spec_encode_todos(ts: Seq<TodoView>) -> Seq<u8> {
    seq![91u8] + spec_encode_items(ts, 0) + seq![93u8]
}

fn hex_digit_lower_byte(v: u8) -> (r: u8)
    requires
        v < 16,
    ensures
        r == hex_digit_lower(v as int),
{
    if v < 10 {
        48 + v
    } else {
        87 + v
    }
}

/// Appends the escaped form of `s`.
fn escape_into(out: &mut Vec<u8>, s: &[u8])
    ensures
        final(out)@ == old(out)@ + spec_escape(s@),
{
    let mut i: usize = 0;
    while i < s.len()
        invariant
            i <= s.len(),
            out@ + spec_escape_from(s@, i as int) =~= old(out)@ + spec_escape_from(s@, 0),
        decreases s.len() - i,
    {
        let ghost prev = out@;
        let b = s[i];
        if b == 34 {
            out.push(92);
            out.push(34);
        } else if b == 92 {
            out.push(92);
            out.push(92);
        } else if b == 8 {
            out.push(92);
            out.push(98);
        } else if b == 12 {
            out.push(92);
            out.push(102);
        } else if b == 10 {
            out.push(92);
            out.push(110);
        } else if b == 13 {
            out.push(92);
            out.push(114);
        } else if b == 9 {
            out.push(92);
            out.push(116);
        } else if b < 32 {
            out.push(92);
            out.push(117);
            out.push(48);
            out.push(48);
            out.push(hex_digit_lower_byte(b / 16));
            out.push(hex_digit_lower_byte(b % 16));
        } else {
            out.push(b);
        }
        proof {
            assert(out@ =~= prev + esc_byte(b));
            assert(prev + esc_byte(b) + spec_escape_from(s@, i as int + 1) =~= prev
                + spec_escape_from(s@, i as int));
        }
        i = i + 1;
    }
    proof {
        assert(out@ =~= out@ + spec_escape_from(s@, s@.len() as int));
        assert(final(out)@ =~= old(out)@ + spec_escape(s@));
    }
}

/// Appends `{"id":"` and the escaped id.
fn push_id_part(out: &mut Vec<u8>, t: &Todo)
    ensures
        final(out)@ == old(out)@ + spec_id_part(t@),
{
    let ghost o0 = out@;
    out.push(123);
    out.push(34);
    out.push(105);
    out.push(100);
    out.push(34);
    out.push(58);
    out.push(34);
    proof {
        assert(out@ =~= o0 + lit_id_prefix());
    }
    escape_into(out, t.id.as_slice());
    proof {
        assert(o0 + lit_id_prefix() + spec_escape(t@.id) =~= o0 + spec_id_part(t@));
    }
}

/// Appends `","title":"` and the escaped title.
fn push_title_part(out: &mut Vec<u8>, t: &Todo)
    ensures
        final(out)@ == old(out)@ + spec_title_part(t@),
{
    let ghost o0 = out@;
    out.push(34);
    out.push(44);
    out.push(34);
    out.push(116);
    out.push(105);
    out.push(116);
    out.push(108);
    out.push(101);
    out.push(34);
    out.push(58);
    out.push(34);
    proof {
        assert(out@ =~= o0 + lit_title_mid());
    }
    escape_into(out, t.title.as_slice());
    proof {
        assert(o0 + lit_title_mid() + spec_escape(t@.title) =~= o0 + spec_title_part(t@));
    }
}

/// Appends `","completed":`, the flag and the closing brace.
fn push_completed_part(out: &mut Vec<u8>, t: &Todo)
    ensures
        final(out)@ == old(out)@ + spec_completed_part(t@),
{
    let ghost o0 = out@;
    out.push(34);
    out.push(44);
    out.push(34);
    out.push(99);
    out.push(111);
    out.push(109);
    out.push(112);
    out.push(108);
    out.push(101);
    out.push(116);
    out.push(101);
    out.push(100);
    out.push(34);
    out.push(58);
    proof {
        assert(out@ =~= o0 + lit_completed_mid());
    }
    if t.completed {
        out.push(116);
        out.push(114);
        out.push(117);
        out.push(101);
    } else {
        out.push(102);
        out.push(97);
        out.push(108);
        out.push(115);
        out.push(101);
    }
    out.push(125);
    proof {
        assert(out@ =~= o0 + spec_completed_part(t@));
    }
}

/// Appends the JSON object for one record.
fn encode_todo_into(out: &mut Vec<u8>, t: &Todo)
    ensures
        final(out)@ == old(out)@ + spec_encode_todo(t@),
{
    let ghost o0 = out@;
    push_id_part(out, t);
    push_title_part(out, t);
    push_completed_part(out, t);
    proof {
        assert(o0 + spec_id_part(t@) + spec_title_part(t@) + spec_completed_part(t@) =~= o0
            + spec_encode_todo(t@));
    }
}

/// The JSON object for one record, as fresh bytes.
pub fn encode_todo(t: &Todo) -> (r: Vec<u8>)
    ensures
        r@ == spec_encode_todo(t@),
{
    let mut out: Vec<u8> = Vec::new();
    encode_todo_into(&mut out, t);
    proof {
        assert(out@ =~= spec_encode_todo(t@));
    }
    out
}

/// The JSON array for a snapshot, as fresh bytes.
pub fn encode_todos(items: &Vec<Todo>) -> (r: Vec<u8>)
    ensures
        r@ == spec_encode_todos(items.deep_view()),
{
    let ghost ts = items.deep_view();
    let mut out: Vec<u8> = Vec::new();
    out.push(91);
    let mut i: usize = 0;
    while i < items.len()
        invariant
            i <= items.len(),
            ts == items.deep_view(),
            out@ + spec_encode_items(ts, i as int) =~= seq![91u8] + spec_encode_items(ts, 0),
        decreases items.len() - i,
    {
        let ghost prev = out@;
        if i > 0 {
            out.push(44);
        }
        encode_todo_into(&mut out, &items[i]);
        proof {
            assert(out@ =~= prev + (if i > 0 {
                seq![44u8]
            } else {
                Seq::<u8>::empty()
            }) + spec_encode_todo(ts[i as int]));
            assert(prev + (if i > 0 {
                seq![44u8]
            } else {
                Seq::<u8>::empty()
            }) + spec_encode_todo(ts[i as int]) + spec_encode_items(ts, i as int + 1) =~= prev
                + spec_encode_items(ts, i as int));
        }
        i = i + 1;
    }
    proof {
        assert(out@ =~= seq![91u8] + spec_encode_items(ts, 0));
    }
    out.push(93);
    proof {
        assert(out@ =~= spec_encode_todos(ts));
    }
    out
}

} // verus!
