//! Offsets into UTF-8 text, and the characters that follow them.
use vstd::prelude::*;
use vstd::string::StringSliceAdditionalSpecFns;
use vstd::utf8::*;

use crate::byte::occurs_at;

verus! {

/// `pos` is an offset of `s` at which a character starts, or the end of `s`.
pub open spec fn at_boundary(s: &str, pos: int) -> bool {
    is_char_boundary(s.spec_bytes(), pos)
}

/// The characters of `s` from the byte offset `pos` on.
pub open spec fn text_after(s: &str, pos: int) -> Seq<char> {
    decode_utf8(s.spec_bytes().subrange(pos, s.spec_bytes().len() as int))
}

/// The number of bytes that encode `c`.
pub open spec fn width(c: char) -> nat {
    encode_scalar(c as u32).len()
}

/// The number of bytes that encode `c`.
pub fn char_width(c: char) -> (w: usize)
    ensures
        w == width(c),
{
    let v = c as u32;
    if v <= 0x7F {
        1
    } else if v <= 0x7FF {
        2
    } else if v <= 0xFFFF {
        3
    } else {
        4
    }
}

/// Where `a` is valid UTF-8 and so is `a + b`, `a.len()` is a boundary of `a + b`.
proof fn lemma_concat_boundary(a: Seq<u8>, b: Seq<u8>)
    requires
        valid_utf8(a),
        valid_utf8(a + b),
    ensures
        is_char_boundary(a + b, a.len() as int),
    decreases a.len(),
{
    let ab = a + b;
    if a.len() > 0 {
        assert(ab[0] == a[0]);
        let l = length_of_first_scalar(a);
        assert(length_of_first_scalar(ab) == l);
        assert(pop_first_scalar(ab) =~= pop_first_scalar(a) + b);
        lemma_concat_boundary(pop_first_scalar(a), b);
    }
}

/// The boundaries of `bytes` that lie after `from` are boundaries of `bytes[from..]`, and back.
pub proof fn lemma_shift(bytes: Seq<u8>, from: int, to: int)
    requires
        valid_utf8(bytes),
        is_char_boundary(bytes, from),
        from <= to <= bytes.len(),
    ensures
        valid_utf8(bytes.subrange(from, bytes.len() as int)),
        is_char_boundary(bytes, to) <==> is_char_boundary(bytes.subrange(from, bytes.len() as int), to - from),
{
    broadcast use valid_utf8_split, is_char_boundary_start_end_of_seq;

    let rb = bytes.subrange(from, bytes.len() as int);
    if to < bytes.len() {
        assert(rb[to - from] == bytes[to]);
        is_char_boundary_iff_not_is_continuation_byte(bytes, to);
        is_char_boundary_iff_not_is_continuation_byte(rb, to - from);
    } else {
        assert(rb.len() == to - from);
    }
}

/// Facts about the bytes of a string: they are valid UTF-8, and its start and end are
/// boundaries.
pub proof fn lemma_text(s: &str)
    ensures
        valid_utf8(s.spec_bytes()),
        at_boundary(s, 0),
        at_boundary(s, s.spec_bytes().len() as int),
        text_after(s, 0) == s@,
{
    broadcast use encode_utf8_valid_utf8, is_char_boundary_start_end_of_seq, encode_utf8_decode_utf8;

    assert(s.spec_bytes().subrange(0, s.spec_bytes().len() as int) =~= s.spec_bytes());
}

/// Where the encoding of `chars` occurs at the boundary `from`, its end is a boundary too, and
/// the text after `from` is `chars` followed by the text after that end.
pub proof fn lemma_prefix(s: &str, from: int, chars: Seq<char>)
    requires
        at_boundary(s, from),
        occurs_at(s.spec_bytes(), from, encode_utf8(chars)),
    ensures
        at_boundary(s, from + encode_utf8(chars).len()),
        text_after(s, from) == chars + text_after(s, from + encode_utf8(chars).len()),
{
    broadcast use encode_utf8_valid_utf8, encode_utf8_decode_utf8, valid_utf8_split;

    let bytes = s.spec_bytes();
    let n = encode_utf8(chars).len() as int;
    lemma_text(s);
    lemma_shift(bytes, from, from);
    let rb = bytes.subrange(from, bytes.len() as int);
    assert(rb =~= encode_utf8(chars) + rb.subrange(n, rb.len() as int));
    lemma_concat_boundary(encode_utf8(chars), rb.subrange(n, rb.len() as int));
    lemma_shift(bytes, from, from + n);
    decode_utf8_split(rb, n);
    assert(rb.subrange(0, n) =~= encode_utf8(chars));
    assert(rb.subrange(n, rb.len() as int) =~= bytes.subrange(from + n, bytes.len() as int));
}

/// At a boundary, the text after it is empty exactly at the end; and where it is not, its
/// first character occupies the next `width` bytes, after which comes another boundary.
pub proof fn lemma_first(s: &str, from: int)
    requires
        at_boundary(s, from),
    ensures
        from <= s.spec_bytes().len(),
        text_after(s, from).len() == 0 <==> from == s.spec_bytes().len(),
        text_after(s, from).len() > 0 ==> {
            let c = text_after(s, from)[0];
            &&& occurs_at(s.spec_bytes(), from, encode_utf8(seq![c]))
            &&& encode_utf8(seq![c]).len() == width(c)
            &&& at_boundary(s, from + width(c))
            &&& text_after(s, from + width(c)) == text_after(s, from).drop_first()
        },
{
    broadcast use encode_utf8_valid_utf8, decode_utf8_encode_utf8;

    let bytes = s.spec_bytes();
    lemma_text(s);
    lemma_shift(bytes, from, from);
    let rb = bytes.subrange(from, bytes.len() as int);
    let t = text_after(s, from);
    if rb.len() > 0 {
        assert(t.len() > 0);
        let c = t[0];
        assert(seq![c].drop_first() =~= Seq::<char>::empty());
        assert(encode_utf8(Seq::<char>::empty()) =~= Seq::<u8>::empty());
        assert(encode_utf8(seq![c]) =~= encode_scalar(c as u32) + encode_utf8(Seq::<char>::empty()));
        assert(encode_utf8(seq![c]) =~= encode_scalar(c as u32));
        assert(encode_utf8(t) == rb);
        assert(t =~= seq![c] + t.drop_first());
        assert(encode_utf8(t) =~= encode_scalar(c as u32) + encode_utf8(t.drop_first()));
        let e = encode_scalar(c as u32);
        assert(rb =~= e + encode_utf8(t.drop_first()));
        assert(rb.len() >= e.len());
        assert(rb.subrange(0, e.len() as int) =~= e);
        assert(bytes.subrange(from, from + width(c)) =~= rb.subrange(0, width(c) as int));
        assert(occurs_at(bytes, from, encode_utf8(seq![c])));
        lemma_prefix(s, from, seq![c]);
        assert(text_after(s, from) =~= seq![c] + text_after(s, from + width(c)));
    } else {
        assert(t.len() == 0);
    }
}

/// The part of `s` between the boundaries `from` and `to`.
pub fn slice<'a>(s: &'a str, from: usize, to: usize) -> (r: &'a str)
    requires
        at_boundary(s, from as int),
        at_boundary(s, to as int),
        from <= to,
    ensures
        text_after(s, from as int) == r@ + text_after(s, to as int),
        r.spec_bytes() == s.spec_bytes().subrange(from as int, to as int),
{
    broadcast use encode_utf8_decode_utf8, encode_utf8_valid_utf8;

    proof {
        lemma_first(s, to as int);
        lemma_shift(s.spec_bytes(), from as int, to as int);
    }
    let (_, rest) = s.split_at(from);
    let (mid, tail) = rest.split_at(to - from);
    proof {
        let bytes = s.spec_bytes();
        let rb = bytes.subrange(from as int, bytes.len() as int);
        assert(rest.spec_bytes() == rb);
        decode_utf8_split(rb, (to - from) as int);
        assert(rb.subrange((to - from) as int, rb.len() as int) =~= bytes.subrange(to as int, bytes.len() as int));
        assert(rb.subrange(0, (to - from) as int) =~= bytes.subrange(from as int, to as int));
    }
    mid
}

/// The character of `s` at the boundary `pos` and the boundary after it, or `None` at the end.
pub fn next_char(s: &str, pos: usize) -> (r: Option<(char, usize)>)
    requires
        at_boundary(s, pos as int),
    ensures
        r == if text_after(s, pos as int).len() > 0 {
            Some((text_after(s, pos as int)[0], (pos + width(text_after(s, pos as int)[0])) as usize))
        } else {
            None::<(char, usize)>
        },
        r is Some ==> pos < (r->0).1 == pos + width(text_after(s, pos as int)[0]) <= s.spec_bytes().len(),
        r is Some ==> at_boundary(s, (r->0).1 as int),
        r is Some ==> text_after(s, (r->0).1 as int) == text_after(s, pos as int).drop_first(),
{
    broadcast use encode_utf8_decode_utf8;

    proof {
        lemma_first(s, pos as int);
    }
    if pos == s.as_bytes().len() {
        return None;
    }
    let (_, rest) = s.split_at(pos);
    proof {
        assert(rest@ == text_after(s, pos as int));
    }
    let c = rest.get_char(0);
    Some((c, pos + char_width(c)))
}

} // verus!

verus! {

/// Where `a + c == b + c`, `a == b`.
pub proof fn lemma_cancel<T>(a: Seq<T>, b: Seq<T>, c: Seq<T>)
    requires
        a + c == b + c,
    ensures
        a == b,
{
    assert((a + c).len() == a.len() + c.len());
    assert((b + c).len() == b.len() + c.len());
    assert(a.len() == b.len());
    assert(a =~= (a + c).subrange(0, a.len() as int));
    assert(b =~= (b + c).subrange(0, b.len() as int));
}

/// The characters of `s` between the boundaries `from` and `to`.
pub open spec fn run_chars(s: &str, from: int, to: int) -> Seq<char> {
    text_after(s, from).subrange(0, text_after(s, from).len() - text_after(s, to).len())
}

/// The characters of `s` from `from` to `to` are the longest run from `from` that pass `f`.
pub open spec fn char_run<F: Fn(char) -> bool>(f: F, s: &str, from: int, to: int) -> bool {
    &&& from <= to
    &&& at_boundary(s, to)
    &&& text_after(s, from) == run_chars(s, from, to) + text_after(s, to)
    &&& forall|k: int|
        0 <= k < run_chars(s, from, to).len() ==> #[trigger] f.ensures((run_chars(s, from, to)[k],), true)
    &&& text_after(s, to).len() > 0 ==> f.ensures((text_after(s, to)[0],), false)
}

/// Where the run of characters from `from` that pass `f` ends.
pub fn char_run_end<F: Fn(char) -> bool>(f: &F, s: &str, from: usize) -> (to: usize)
    requires
        at_boundary(s, from as int),
        forall|c: char| #[trigger] f.requires((c,)),
    ensures
        char_run(*f, s, from as int, to as int),
{
    let ghost n = s.spec_bytes().len();
    let mut pos = from;
    let ghost mut run: Seq<char> = seq![];
    proof {
        lemma_first(s, from as int);
        assert(text_after(s, from as int) =~= run + text_after(s, from as int));
    }
    loop
        invariant
            n == s.spec_bytes().len(),
            at_boundary(s, pos as int),
            from <= pos <= n,
            text_after(s, from as int) == run + text_after(s, pos as int),
            forall|k: int| 0 <= k < run.len() ==> #[trigger] f.ensures((run[k],), true),
            forall|c: char| #[trigger] f.requires((c,)),
        decreases n - pos,
    {
        proof {
            lemma_first(s, pos as int);
        }
        match next_char(s, pos) {
            None => {
                proof {
                    assert(run =~= run_chars(s, from as int, pos as int));
                }
                return pos;
            },
            Some((c, next)) => {
                if !f(c) {
                    proof {
                        assert(run =~= run_chars(s, from as int, pos as int));
                    }
                    return pos;
                }
                proof {
                    let t = text_after(s, pos as int);
                    assert(t =~= seq![c] + t.drop_first());
                    assert(text_after(s, from as int) =~= run.push(c) + text_after(s, pos + width(c)));
                    run = run.push(c);
                }
                pos = next;
            },
        }
    }
}

} // verus!
