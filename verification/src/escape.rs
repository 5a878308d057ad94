//! Printable rendering of raw buffers, for traffic summaries: printable
//! ASCII stands for itself, tab, newline and carriage return become their
//! usual backslash escapes, and every other byte becomes a backslash
//! followed by its three octal digits.

use vstd::prelude::*;

verus! {

/// The escaped rendering of one byte.
pub open spec fn escape_byte(b: u8) -> Seq<char> {
    if 32 <= b && b <= 126 {
        seq![b as char]
    } else if b == 9 {
        seq!['\\', 't']
    } else if b == 10 {
        seq!['\\', 'n']
    } else if b == 13 {
        seq!['\\', 'r']
    } else {
        seq![
            '\\',
            ((48 + b / 64) as u8) as char,
            ((48 + (b / 8) % 8) as u8) as char,
            ((48 + b % 8) as u8) as char,
        ]
    }
}

/// The escaped rendering of a byte sequence: each byte's rendering in turn.
pub open spec fn escape_text(v: Seq<u8>) -> Seq<char>
    decreases v.len(),
{
    if v.len() == 0 {
        Seq::empty()
    } else {
        escape_byte(v[0]) + escape_text(v.skip(1))
    }
}

/// Appending a byte appends its rendering.
proof fn lemma_escape_text_push(v: Seq<u8>, b: u8)
    ensures
        escape_text(v.push(b)) == escape_text(v) + escape_byte(b),
    decreases v.len(),
{
    if v.len() == 0 {
        assert(v.push(b).skip(1) =~= Seq::<u8>::empty());
        assert(escape_text(Seq::<u8>::empty()) == Seq::<char>::empty());
        assert(v.push(b)[0] == b);
        assert(escape_text(v.push(b)) =~= escape_text(v) + escape_byte(b));
    } else {
        lemma_escape_text_push(v.skip(1), b);
        assert(v.push(b).skip(1) =~= v.skip(1).push(b));
        assert(escape_byte(v[0]) + (escape_text(v.skip(1)) + escape_byte(b)) =~= (escape_byte(v[0])
            + escape_text(v.skip(1))) + escape_byte(b));
    }
}

/// Relies on String::push: appends the given character to the string.
#[verifier::external_body]
fn push_char(s: &mut String, c: char)
    ensures
        final(s)@ == old(s)@ + seq![c],
{
    s.push(c)
}

/// Renders a raw buffer printably, exactly as [`escape_text`] states.
pub fn escape(v: &[u8]) -> (r: String)
    ensures
        r@ == escape_text(v@),
{
    let mut out = String::new();
    let n: usize = v.len();
    let mut i: usize = 0;
    proof {
        assert(v@.subrange(0, 0) =~= Seq::<u8>::empty());
    }
    while i < n
        invariant
            i <= n,
            n == v@.len(),
            out@ == escape_text(v@.subrange(0, i as int)),
        decreases n - i,
    {
        let b = v[i];
        if 32 <= b && b <= 126 {
            push_char(&mut out, b as char);
        } else if b == 9 {
            push_char(&mut out, '\\');
            push_char(&mut out, 't');
        } else if b == 10 {
            push_char(&mut out, '\\');
            push_char(&mut out, 'n');
        } else if b == 13 {
            push_char(&mut out, '\\');
            push_char(&mut out, 'r');
        } else {
            push_char(&mut out, '\\');
            push_char(&mut out, (48 + b / 64) as char);
            push_char(&mut out, (48 + (b / 8) % 8) as char);
            push_char(&mut out, (48 + b % 8) as char);
        }
        proof {
            lemma_escape_text_push(v@.subrange(0, i as int), v@[i as int]);
            assert(v@.subrange(0, i as int).push(v@[i as int]) =~= v@.subrange(0, i as int + 1));
            assert(out@ =~= escape_text(v@.subrange(0, i as int + 1)));
        }
        i = i + 1;
    }
    proof {
        assert(v@.subrange(0, n as int) =~= v@);
    }
    out
}

} // verus!
