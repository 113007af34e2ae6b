//! Verified UTF-8 encoding of character sequences, against the encoding
//! specification of `vstd::utf8`.
use vstd::prelude::*;
use vstd::utf8::*;

verus! {

/// `encode_utf8` distributes over concatenation.
pub proof fn lemma_encode_utf8_concat(a: Seq<char>, b: Seq<char>)
    ensures
        encode_utf8(a + b) == encode_utf8(a) + encode_utf8(b),
    decreases a.len(),
{
    if a.len() == 0 {
        assert(a + b =~= b);
        assert(encode_utf8(a) + encode_utf8(b) =~= encode_utf8(b));
    } else {
        lemma_encode_utf8_concat(a.drop_first(), b);
        assert((a + b).drop_first() =~= a.drop_first() + b);
        assert((a + b)[0] == a[0]);
        assert(encode_scalar(a[0] as u32) + (encode_utf8(a.drop_first()) + encode_utf8(b))
            =~= (encode_scalar(a[0] as u32) + encode_utf8(a.drop_first())) + encode_utf8(b));
    }
}

/// `encode_utf8` of one more character appends that character's encoding.
pub proof fn lemma_encode_utf8_push(s: Seq<char>, c: char)
    ensures
        encode_utf8(s.push(c)) == encode_utf8(s) + encode_scalar(c as u32),
{
    lemma_encode_utf8_concat(s, seq![c]);
    assert(s.push(c) =~= s + seq![c]);
    let single = seq![c];
    assert(single.drop_first() =~= Seq::<char>::empty());
    assert(encode_utf8(Seq::<char>::empty()) =~= Seq::<u8>::empty());
    assert(single[0] == c);
    assert(encode_utf8(single) == encode_scalar(c as u32) + encode_utf8(single.drop_first()));
    assert(encode_utf8(single) =~= encode_scalar(c as u32));
}

/// Appends the UTF-8 encoding of one Unicode scalar to `out`.
fn encode_scalar_bytes(scalar: u32, out: &mut Vec<u8>)
    requires
        is_scalar(scalar),
    ensures
        final(out)@ == old(out)@ + encode_scalar(scalar),
{
    if scalar <= 0x7F {
        out.push((scalar & 0x7F) as u8);
        assert(out@ =~= old(out)@ + encode_scalar(scalar));
    } else if scalar <= 0x7FF {
        out.push(0xC0 | ((scalar >> 6) & 0x1F) as u8);
        out.push(0x80 | (scalar & 0x3F) as u8);
        assert(out@ =~= old(out)@ + encode_scalar(scalar));
    } else if scalar <= 0xFFFF {
        out.push(0xE0 | ((scalar >> 12) & 0x0F) as u8);
        out.push(0x80 | ((scalar >> 6) & 0x3F) as u8);
        out.push(0x80 | (scalar & 0x3F) as u8);
        assert(out@ =~= old(out)@ + encode_scalar(scalar));
    } else {
        out.push(0xF0 | ((scalar >> 18) & 0x7) as u8);
        out.push(0x80 | ((scalar >> 12) & 0x3F) as u8);
        out.push(0x80 | ((scalar >> 6) & 0x3F) as u8);
        out.push(0x80 | (scalar & 0x3F) as u8);
        assert(out@ =~= old(out)@ + encode_scalar(scalar));
    }
}

/// The UTF-8 encoding of a character sequence, byte for byte.
pub fn encode_chars(v: &Vec<char>) -> (r: Vec<u8>)
    ensures
        r@ == encode_utf8(v@),
{
    let mut r: Vec<u8> = Vec::new();
    let n = v.len();
    for i in 0..n
        invariant
            n == v@.len(),
            r@ == encode_utf8(v@.take(i as int)),
    {
        let c = v[i];
        proof {
            char_is_scalar(c);
        }
        encode_scalar_bytes(c as u32, &mut r);
        proof {
            lemma_encode_utf8_push(v@.take(i as int), c);
            assert(v@.take(i as int).push(c) =~= v@.take(i + 1 as int));
        }
    }
    proof {
        assert(v@.take(n as int) =~= v@);
    }
    r
}

/// The UTF-8 encoding of a line feed is one byte.
pub proof fn lemma_encode_newline()
    ensures
        encode_utf8(seq!['\n']) == seq![10u8],
{
    assert(seq!['\n'].drop_first() =~= Seq::<char>::empty());
    assert(encode_utf8(Seq::<char>::empty()) =~= Seq::<u8>::empty());
    assert(('\n' as u32) == 10);
    assert((10u32 & 0x7F) == 10u32) by (bit_vector);
    assert(encode_scalar(10u32) =~= seq![10u8]);
    assert(encode_utf8(seq!['\n']) =~= seq![10u8]);
}

} // verus!
