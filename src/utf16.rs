//! UTF-16 encoding and decoding of text, stated over sequences of scalar
//! values and code units.
use vstd::math::min;
use vstd::prelude::*;

verus! {

broadcast use vstd::utf8::char_is_scalar, vstd::utf8::char_u32_cast;

/// Whether `u` is a leading (high) surrogate code unit.
pub open spec fn is_high_surrogate(u: u16) -> bool {
    0xD800 <= u <= 0xDBFF
}

/// Whether `u` is a trailing (low) surrogate code unit.
pub open spec fn is_low_surrogate(u: u16) -> bool {
    0xDC00 <= u <= 0xDFFF
}

/// Whether `u` is a surrogate code unit of either kind.
pub open spec fn is_surrogate(u: u16) -> bool {
    0xD800 <= u <= 0xDFFF
}

/// The code units that encode one scalar value: one unit inside the basic
/// multilingual plane, a surrogate pair outside it.
pub open spec fn char_units(c: char) -> Seq<u16> {
    let v = c as u32;
    if v < 0x10000 {
        seq![v as u16]
    } else {
        seq![
            (0xD800 + (v - 0x10000) / 0x400) as u16,
            (0xDC00 + (v - 0x10000) % 0x400) as u16,
        ]
    }
}

/// The UTF-16 encoding of a text.
pub open spec fn encode(s: Seq<char>) -> Seq<u16>
    decreases s.len(),
{
    if s.len() == 0 {
        Seq::empty()
    } else {
        encode(s.drop_last()) + char_units(s.last())
    }
}

/// The number of UTF-16 code units that encode a text.
pub open spec fn utf16_len(s: Seq<char>) -> nat {
    encode(s).len()
}

/// The scalar value that a surrogate pair stands for.
pub open spec fn pair_value(high: u16, low: u16) -> u32 {
    (0x10000 + (high - 0xD800) * 0x400 + (low - 0xDC00)) as u32
}

/// Puts `c` in front of a decoding result; an error position moves by the
/// `n` units that `c` took.
pub open spec fn prepend(c: char, r: Result<Seq<char>, nat>, n: nat) -> Result<Seq<char>, nat> {
    match r {
        Ok(t) => Ok(seq![c] + t),
        Err(i) => Err(i + n),
    }
}

/// The text that a sequence of code units encodes, or the position of the
/// first unit that is an unpaired surrogate.
pub open spec fn decode(u: Seq<u16>) -> Result<Seq<char>, nat>
    decreases u.len(),
{
    if u.len() == 0 {
        Ok(Seq::empty())
    } else if !is_surrogate(u[0]) {
        prepend((u[0] as u32) as char, decode(u.skip(1)), 1)
    } else if is_high_surrogate(u[0]) && u.len() >= 2 && is_low_surrogate(u[1]) {
        prepend(pair_value(u[0], u[1]) as char, decode(u.skip(2)), 2)
    } else {
        Err(0)
    }
}

/// Encoding distributes over concatenation.
pub proof fn lemma_encode_concat(a: Seq<char>, b: Seq<char>)
    ensures
        encode(a + b) == encode(a) + encode(b),
    decreases b.len(),
{
    if b.len() == 0 {
        assert(a + b =~= a);
        assert(encode(a) + encode(b) =~= encode(a));
    } else {
        lemma_encode_concat(a, b.drop_last());
        assert((a + b).drop_last() =~= a + b.drop_last());
        assert((a + b).last() == b.last());
        assert(encode(a + b) =~= encode(a) + encode(b));
    }
}

/// Encoding a prefix one scalar longer adds that scalar's units.
pub proof fn lemma_encode_take_step(s: Seq<char>, i: int)
    requires
        0 <= i < s.len(),
    ensures
        encode(s.take(i + 1)) == encode(s.take(i)) + char_units(s[i]),
{
    assert(s.take(i + 1).drop_last() =~= s.take(i));
}

/// The units of one scalar, followed by any units, decode to that scalar
/// followed by what the rest decodes to.
pub proof fn lemma_decode_char_units(c: char, rest: Seq<u16>)
    ensures
        decode(char_units(c) + rest) == prepend(c, decode(rest), char_units(c).len()),
{
    let u = char_units(c) + rest;
    let v = c as u32;
    if v < 0x10000 {
        assert(u.skip(1) =~= rest);
        assert(!is_surrogate(u[0]));
    } else {
        assert(u.skip(2) =~= rest);
        let h = (0xD800 + (v - 0x10000) / 0x400) as u16;
        let l = (0xDC00 + (v - 0x10000) % 0x400) as u16;
        assert(u[0] == h && u[1] == l);
        assert(pair_value(h, l) == v);
    }
}

/// Decoding undoes encoding.
pub proof fn lemma_decode_encode(s: Seq<char>)
    ensures
        decode(encode(s)) == Ok::<Seq<char>, nat>(s),
    decreases s.len(),
{
    if s.len() > 0 {
        let rest = s.skip(1);
        assert(s =~= seq![s[0]] + rest);
        lemma_encode_concat(seq![s[0]], rest);
        let one = seq![s[0]];
        assert(one.drop_last() =~= Seq::<char>::empty());
        assert(encode(one.drop_last()) == Seq::<u16>::empty());
        assert(encode(one) =~= char_units(s[0]));
        lemma_decode_char_units(s[0], encode(rest));
        lemma_decode_encode(rest);
        assert(encode(s) == char_units(s[0]) + encode(rest));
        assert(seq![s[0]] + rest =~= s);
    } else {
        assert(s =~= Seq::<char>::empty());
    }
}

/// Skipping, in the encoding of a text, the units of its first `k` scalars
/// and decoding what is left gives back exactly the text after those `k`
/// scalars, whatever the width of each scalar.
pub proof fn lemma_skip_units_round_trip(s: Seq<char>, k: int)
    requires
        0 <= k <= s.len(),
    ensures
        decode(encode(s).skip(utf16_len(s.take(k)) as int)) == Ok::<Seq<char>, nat>(s.skip(k)),
{
    assert(s =~= s.take(k) + s.skip(k));
    lemma_encode_concat(s.take(k), s.skip(k));
    assert(encode(s).skip(utf16_len(s.take(k)) as int) =~= encode(s.skip(k)));
    lemma_decode_encode(s.skip(k));
}

/// The position of an unpaired surrogate in a sequence of code units that
/// is not valid UTF-16.
#[derive(Clone, Copy, Debug, PartialEq, Eq)]
pub struct Utf16Error {
    pub position: usize,
}

/// Relies on `char::from_u32`: `Some` exactly for a Unicode scalar value,
/// holding the character with that value.
#[verifier::external_body]
fn char_from_u32(v: u32) -> (r: Option<char>)
    ensures
        r is Some <==> vstd::utf8::is_scalar(v),
        r matches Some(c) ==> c as u32 == v,
{
    char::from_u32(v)
}

/// Relies on `String::push`: appends one character.
#[verifier::external_body]
pub(crate) fn push_char(s: &mut String, c: char)
    ensures
        final(s)@ == old(s)@.push(c),
{
    s.push(c)
}

/// The characters of a text, in order.
pub fn chars_of(s: &str) -> (r: Vec<char>)
    ensures
        r@ == s@,
{
    let mut r: Vec<char> = Vec::new();
    for c in iter: s.chars()
        invariant
            iter.seq() == s@,
            r@ == s@.take(iter.index() as int),
    {
        proof {
            assert(s@.take(iter.index() as int).push(c) =~= s@.take(iter.index() + 1));
        }
        r.push(c);
    }
    proof {
        assert(s@.take(s@.len() as int) =~= s@);
    }
    r
}

/// Appends the code units of one scalar value.
fn push_char_units(out: &mut Vec<u16>, c: char)
    ensures
        final(out)@ == old(out)@ + char_units(c),
{
    let v: u32 = c as u32;
    if v < 0x10000 {
        out.push(v as u16);
    } else {
        out.push((0xD800 + (v - 0x10000) / 0x400) as u16);
        out.push((0xDC00 + (v - 0x10000) % 0x400) as u16);
    }
    proof {
        assert(final(out)@ =~= old(out)@ + char_units(c));
    }
}

/// Encodes a text as UTF-16 code units.
pub fn encode_utf16(s: &str) -> (r: Vec<u16>)
    ensures
        r@ == encode(s@),
{
    let chars = chars_of(s);
    let mut r: Vec<u16> = Vec::new();
    let mut i: usize = 0;
    while i < chars.len()
        invariant
            chars@ == s@,
            i <= chars@.len(),
            r@ == encode(s@.take(i as int)),
        decreases chars@.len() - i,
    {
        proof {
            lemma_encode_take_step(s@, i as int);
        }
        push_char_units(&mut r, chars[i]);
        i = i + 1;
    }
    proof {
        assert(s@.take(i as int) =~= s@);
    }
    r
}

/// The number of UTF-16 code units that encode the first `n` characters,
/// held at `usize::MAX` where it is larger.
pub fn utf16_len_of_prefix(chars: &Vec<char>, n: usize) -> (r: usize)
    requires
        n <= chars@.len(),
    ensures
        r == min(utf16_len(chars@.take(n as int)) as int, usize::MAX as int),
{
    let mut r: usize = 0;
    let mut i: usize = 0;
    while i < n
        invariant
            n <= chars@.len(),
            i <= n,
            r == min(utf16_len(chars@.take(i as int)) as int, usize::MAX as int),
        decreases n - i,
    {
        proof {
            lemma_encode_take_step(chars@, i as int);
        }
        let w: usize = if (chars[i] as u32) < 0x10000 { 1 } else { 2 };
        if r <= usize::MAX - w {
            r = r + w;
        } else {
            r = usize::MAX;
        }
        i = i + 1;
    }
    r
}

/// A decoding result with `prefix` already decoded from the first `n` units.
pub open spec fn after_prefix(r: Result<Seq<char>, nat>, prefix: Seq<char>, n: nat) -> Result<Seq<char>, nat> {
    match r {
        Ok(t) => Ok(prefix + t),
        Err(i) => Err(i + n),
    }
}

proof fn lemma_after_prefix_step(r: Result<Seq<char>, nat>, prefix: Seq<char>, c: char, i: nat, n: nat)
    ensures
        after_prefix(prepend(c, r, n), prefix, i) == after_prefix(r, prefix.push(c), i + n),
{
    if let Ok(t) = r {
        assert(prefix + (seq![c] + t) =~= prefix.push(c) + t);
    }
}

/// Decodes UTF-16 code units into a text; fails at the first unpaired
/// surrogate.
pub fn decode_utf16(u: &[u16]) -> (r: Result<String, Utf16Error>)
    ensures
        match decode(u@) {
            Ok(t) => r matches Ok(s) && s@ == t,
            Err(i) => r == Err::<String, Utf16Error>(Utf16Error { position: i as usize }),
        },
{
    proof {
        assert(u@.skip(0) =~= u@);
    }
    decode_utf16_from(u, 0)
}

/// Decodes the code units after the first `start` ones (none where there
/// are fewer); an error position counts from `start`.
pub fn decode_utf16_from(u: &[u16], start: usize) -> (r: Result<String, Utf16Error>)
    ensures
        match decode(u@.skip(min(start as int, u@.len() as int))) {
            Ok(t) => r matches Ok(s) && s@ == t,
            Err(i) => r == Err::<String, Utf16Error>(Utf16Error { position: i as usize }),
        },
{
    let first: usize = if start < u.len() { start } else { u.len() };
    let ghost whole = u@.skip(first as int);
    let mut out = String::new();
    let mut i: usize = first;
    proof {
        if let Ok(t) = decode(whole) {
            assert(out@ + t =~= t);
        }
    }
    while i < u.len()
        invariant
            first <= i <= u@.len(),
            first == min(start as int, u@.len() as int),
            whole == u@.skip(first as int),
            decode(whole) == after_prefix(decode(u@.skip(i as int)), out@, (i - first) as nat),
        decreases u@.len() - i,
    {
        let rest = Ghost(u@.skip(i as int));
        let w = u[i];
        if w < 0xD800 || w > 0xDFFF {
            let c = char_from_u32(w as u32).unwrap();
            proof {
                vstd::utf8::char_u32_cast(c, w as u32);
                assert(rest@.skip(1) =~= u@.skip(i + 1));
                assert(decode(rest@) == prepend(c, decode(u@.skip(i + 1)), 1));
                lemma_after_prefix_step(decode(u@.skip(i + 1)), out@, c, (i - first) as nat, 1);
            }
            push_char(&mut out, c);
            i = i + 1;
        } else if w <= 0xDBFF && i + 1 < u.len() && 0xDC00 <= u[i + 1] && u[i + 1] <= 0xDFFF {
            let v: u32 = 0x10000 + (w as u32 - 0xD800) * 0x400 + (u[i + 1] as u32 - 0xDC00);
            let c = char_from_u32(v).unwrap();
            proof {
                vstd::utf8::char_u32_cast(c, v);
                assert(rest@.skip(2) =~= u@.skip(i + 2));
                assert(v == pair_value(rest@[0], rest@[1]));
                assert(decode(rest@) == prepend(c, decode(u@.skip(i + 2)), 2));
                lemma_after_prefix_step(decode(u@.skip(i + 2)), out@, c, (i - first) as nat, 2);
            }
            push_char(&mut out, c);
            i = i + 2;
        } else {
            proof {
                assert(rest@[0] == w);
                assert(rest@.len() >= 2 ==> rest@[1] == u@[i + 1]);
                assert(decode(rest@) == Err::<Seq<char>, nat>(0));
            }
            return Err(Utf16Error { position: i - first });
        }
    }
    proof {
        assert(u@.skip(i as int) =~= Seq::<u16>::empty());
        assert(out@ + Seq::<char>::empty() =~= out@);
    }
    Ok(out)
}

} // verus!
