//! Verified text utilities: substring search, global replacement, decimal
//! formatting, and line splitting and joining; plus the two trusted
//! decoding boundaries from raw bytes to strings.
use vstd::prelude::*;
use vstd::string::StrSliceExecFns;
use vstd::string::StringExecFns;
use vstd::utf8::{decode_utf8, valid_utf8};

use crate::data_trait::{lemma_join_lines_push, spec_join_lines};

verus! {

/// `needle` occurs somewhere in `hay`.
pub open spec fn spec_contains_sub(hay: Seq<char>, needle: Seq<char>) -> bool {
    exists|i: int|
        0 <= i <= hay.len() - needle.len() && #[trigger] hay.subrange(i, i + needle.len())
            == needle
}

/// Whether `pat` occurs in `s` at position `i`.
fn match_at(s: &str, pat: &str, i: usize, s_len: usize, pat_len: usize) -> (r: bool)
    requires
        s_len == s@.len(),
        pat_len == pat@.len(),
        i + pat_len <= s_len,
    ensures
        r == (s@.subrange(i as int, i + pat@.len()) == pat@),
{
    let mut k: usize = 0;
    while k < pat_len
        invariant
            s_len == s@.len(),
            pat_len == pat@.len(),
            i + pat_len <= s_len,
            k <= pat_len,
            forall|t: int| 0 <= t < k ==> s@[i + t] == pat@[t],
        decreases pat_len - k,
    {
        if s.get_char(i + k) != pat.get_char(k) {
            proof {
                assert(s@.subrange(i as int, i + pat@.len())[k as int] != pat@[k as int]);
            }
            return false;
        }
        k = k + 1;
    }
    proof {
        assert(s@.subrange(i as int, i + pat@.len()) =~= pat@);
    }
    true
}

/// Substring search, the naive way.
pub fn contains_str(hay: &str, needle: &str) -> (r: bool)
    ensures
        r == spec_contains_sub(hay@, needle@),
{
    let n = hay.unicode_len();
    let m = needle.unicode_len();
    if m > n {
        return false;
    }
    if m == 0 {
        proof {
            assert(hay@.subrange(0, 0 + needle@.len() as int) =~= needle@);
        }
        return true;
    }
    let mut i: usize = 0;
    loop
        invariant
            n == hay@.len(),
            m == needle@.len(),
            1 <= m <= n,
            i <= n - m + 1,
            forall|t: int|
                0 <= t < i ==> #[trigger] hay@.subrange(t, t + needle@.len()) != needle@,
        decreases n - m + 1 - i,
    {
        if i > n - m {
            return false;
        }
        if match_at(hay, needle, i, n, m) {
            return true;
        }
        i = i + 1;
    }
}

/// `s` with every occurrence of `pat` replaced by `rep`, scanning left to
/// right; an empty pattern leaves `s` unchanged.
pub open spec fn spec_replace_all(s: Seq<char>, pat: Seq<char>, rep: Seq<char>) -> Seq<char>
    decreases s.len(),
{
    if pat.len() == 0 {
        s
    } else if s.len() < pat.len() {
        s
    } else if s.subrange(0, pat.len() as int) == pat {
        rep + spec_replace_all(s.skip(pat.len() as int), pat, rep)
    } else {
        seq![s[0]] + spec_replace_all(s.skip(1), pat, rep)
    }
}

proof fn lemma_replace_all_step(s: Seq<char>, pat: Seq<char>, rep: Seq<char>, i: int)
    requires
        1 <= pat.len(),
        0 <= i,
        i + pat.len() <= s.len(),
    ensures
        s.skip(i).subrange(0, pat.len() as int) == pat ==> spec_replace_all(s.skip(i), pat, rep)
            == rep + spec_replace_all(s.skip(i + pat.len()), pat, rep),
        s.skip(i).subrange(0, pat.len() as int) != pat ==> spec_replace_all(s.skip(i), pat, rep)
            == seq![s[i]] + spec_replace_all(s.skip(i + 1), pat, rep),
{
    assert(s.skip(i).skip(pat.len() as int) =~= s.skip(i + pat.len()));
    assert(s.skip(i).skip(1) =~= s.skip(i + 1));
    assert(s.skip(i)[0] == s[i]);
}

/// Global replacement of a pattern, as the oracle command construction
/// needs it.
pub fn replace_string(s: &str, pat: &str, rep: &str) -> (r: String)
    ensures
        r@ == spec_replace_all(s@, pat@, rep@),
{
    let n = s.unicode_len();
    let m = pat.unicode_len();
    if m == 0 {
        return s.to_owned();
    }
    let mut r = String::new();
    let mut i: usize = 0;
    proof {
        assert(s@.skip(0) =~= s@);
        assert(Seq::<char>::empty() + spec_replace_all(s@, pat@, rep@) =~= spec_replace_all(
            s@,
            pat@,
            rep@,
        ));
    }
    while i < n
        invariant
            n == s@.len(),
            m == pat@.len(),
            1 <= m,
            i <= n,
            spec_replace_all(s@, pat@, rep@) == r@ + spec_replace_all(s@.skip(i as int), pat@, rep@),
        decreases n - i,
    {
        if m <= n - i && match_at(s, pat, i, n, m) {
            proof {
                lemma_replace_all_step(s@, pat@, rep@, i as int);
                assert(s@.skip(i as int).subrange(0, pat@.len() as int) =~= s@.subrange(
                    i as int,
                    i + pat@.len(),
                ));
            }
            r.append(rep);
            i = i + m;
        } else {
            proof {
                if i + m <= n {
                    lemma_replace_all_step(s@, pat@, rep@, i as int);
                    assert(s@.skip(i as int).subrange(0, pat@.len() as int) =~= s@.subrange(
                        i as int,
                        i + pat@.len(),
                    ));
                } else {
                    assert(s@.skip(i as int).len() < pat@.len());
                    assert(s@.skip(i as int) =~= seq![s@[i as int]] + s@.skip(i + 1));
                }
            }
            let c = s.substring_char(i, i + 1);
            r.append(c);
            proof {
                assert(c@ =~= seq![s@[i as int]]);
            }
            i = i + 1;
        }
    }
    proof {
        assert(s@.skip(n as int) =~= Seq::<char>::empty());
        assert(r@ + Seq::<char>::empty() =~= r@);
    }
    r
}

/// The decimal digit characters.
pub open spec fn spec_digit(d: nat) -> char {
    seq!['0', '1', '2', '3', '4', '5', '6', '7', '8', '9'][d as int]
}

/// The decimal notation of a number, most significant digit first.
pub open spec fn spec_decimal(n: nat) -> Seq<char>
    decreases n,
{
    if n < 10 {
        seq![spec_digit(n)]
    } else {
        spec_decimal(n / 10) + seq![spec_digit(n % 10)]
    }
}

fn digit_str(d: u32) -> (r: &'static str)
    requires
        d < 10,
    ensures
        r@ == seq![spec_digit(d as nat)],
{
    proof {
        reveal_strlit("0");
        reveal_strlit("1");
        reveal_strlit("2");
        reveal_strlit("3");
        reveal_strlit("4");
        reveal_strlit("5");
        reveal_strlit("6");
        reveal_strlit("7");
        reveal_strlit("8");
        reveal_strlit("9");
    }
    let r = if d == 0 {
        "0"
    } else if d == 1 {
        "1"
    } else if d == 2 {
        "2"
    } else if d == 3 {
        "3"
    } else if d == 4 {
        "4"
    } else if d == 5 {
        "5"
    } else if d == 6 {
        "6"
    } else if d == 7 {
        "7"
    } else if d == 8 {
        "8"
    } else {
        "9"
    };
    proof {
        assert(r@ =~= seq![spec_digit(d as nat)]);
    }
    r
}

/// Appends the decimal notation of `n` to `out`.
pub fn push_decimal(n: u32, out: &mut String)
    ensures
        final(out)@ == old(out)@ + spec_decimal(n as nat),
    decreases n,
{
    if n < 10 {
        out.append(digit_str(n));
    } else {
        push_decimal(n / 10, out);
        out.append(digit_str(n % 10));
        proof {
            assert(old(out)@ + spec_decimal((n / 10) as nat) + seq![spec_digit((n % 10) as nat)]
                =~= old(out)@ + spec_decimal(n as nat));
        }
    }
}

/// The characters of `s`, one by one.
pub fn string_to_chars(s: &str) -> (r: Vec<char>)
    ensures
        r@ == s@,
{
    let n = s.unicode_len();
    let mut r: Vec<char> = Vec::new();
    for i in 0..n
        invariant
            n == s@.len(),
            r@ =~= s@.take(i as int),
    {
        r.push(s.get_char(i));
        proof {
            assert(r@ =~= s@.take(i + 1 as int));
        }
    }
    proof {
        assert(s@.take(n as int) =~= s@);
    }
    r
}

/// Splits on line feeds: the pieces hold no line feed, there is at least
/// one piece, and joining them with line feeds restores the input.
pub fn split_lines(s: &str) -> (r: Vec<String>)
    ensures
        r@.len() >= 1,
        spec_join_lines(r.deep_view()) == s@,
        forall|i: int| 0 <= i < r@.len() ==> !(#[trigger] r.deep_view()[i]).contains('\n'),
{
    let n = s.unicode_len();
    let mut r: Vec<String> = Vec::new();
    let mut start: usize = 0;
    let mut i: usize = 0;
    while i < n
        invariant
            n == s@.len(),
            start <= i <= n,
            r@.len() == 0 ==> start == 0,
            r@.len() >= 1 ==> 1 <= start && s@[start - 1] == '\n' && spec_join_lines(r.deep_view())
                == s@.take(start - 1),
            forall|k: int| 0 <= k < r@.len() ==> !(#[trigger] r.deep_view()[k]).contains('\n'),
            forall|k: int| start <= k < i ==> s@[k] != '\n',
        decreases n - i,
    {
        if s.get_char(i) == '\n' {
            let ghost prev = r.deep_view();
            let seg = s.substring_char(start, i).to_owned();
            let ghost seg_v = seg@;
            r.push(seg);
            proof {
                assert(r.deep_view() =~= prev.push(seg_v));
                assert(seg_v =~= s@.subrange(start as int, i as int));
                assert forall|t: int| 0 <= t < seg_v.len() implies seg_v[t] != '\n' by {
                    assert(seg_v[t] == s@[start + t]);
                }
                assert(!seg_v.contains('\n'));
                if prev.len() == 0 {
                    assert(spec_join_lines(r.deep_view()) == seg_v);
                    assert(seg_v =~= s@.take(i as int));
                } else {
                    lemma_join_lines_push(prev, seg_v);
                    assert(spec_join_lines(prev) + seq!['\n'] + seg_v =~= s@.take(i as int));
                }
            }
            start = i + 1;
        }
        i = i + 1;
    }
    let ghost prev = r.deep_view();
    let seg = s.substring_char(start, n).to_owned();
    let ghost seg_v = seg@;
    r.push(seg);
    proof {
        assert(r.deep_view() =~= prev.push(seg_v));
        assert(seg_v =~= s@.subrange(start as int, n as int));
        assert forall|t: int| 0 <= t < seg_v.len() implies seg_v[t] != '\n' by {
            assert(seg_v[t] == s@[start + t]);
        }
        assert(!seg_v.contains('\n'));
        if prev.len() == 0 {
            assert(spec_join_lines(r.deep_view()) == seg_v);
            assert(seg_v =~= s@);
        } else {
            lemma_join_lines_push(prev, seg_v);
            assert(spec_join_lines(prev) + seq!['\n'] + seg_v =~= s@);
        }
    }
    r
}

/// The characters of the lines, joined by line feeds.
pub fn join_lines_to_chars(lines: &Vec<String>) -> (r: Vec<char>)
    ensures
        r@ == spec_join_lines(lines.deep_view()),
{
    let mut r: Vec<char> = Vec::new();
    let n = lines.len();
    for i in 0..n
        invariant
            n == lines@.len(),
            r@ =~= spec_join_lines(lines.deep_view().take(i as int)),
    {
        if i > 0 {
            r.push('\n');
        }
        let mut cs = string_to_chars(lines[i].as_str());
        r.append(&mut cs);
        proof {
            let dv = lines.deep_view();
            assert(dv.take(i as int).push(dv[i as int]) =~= dv.take(i + 1 as int));
            if i == 0 {
                assert(dv.take(1int)[0] == dv[0]);
                assert(spec_join_lines(dv.take(1int)) == dv[0]);
                assert(r@ =~= spec_join_lines(dv.take(1int)));
            } else {
                lemma_join_lines_push(dv.take(i as int), dv[i as int]);
                assert(r@ =~= spec_join_lines(dv.take(i as int)) + seq!['\n'] + dv[i as int]);
            }
        }
    }
    proof {
        assert(lines.deep_view().take(n as int) =~= lines.deep_view());
    }
    r
}

/// What `String::from_utf8_lossy` makes of a byte sequence: on valid UTF-8
/// it is the decoding; otherwise ill-formed sequences come out as
/// replacement characters.
pub uninterp spec fn lossy_decode(bytes: Seq<u8>) -> Seq<char>;

/// Relies on `String::from_utf8_lossy`: the result is a function of the
/// bytes alone, and on valid UTF-8 it is exactly their decoding.
#[verifier::external_body]
pub fn bytes_to_string_lossy(bytes: &Vec<u8>) -> (r: String)
    ensures
        r@ == lossy_decode(bytes@),
        valid_utf8(bytes@) ==> r@ == decode_utf8(bytes@),
{
    String::from_utf8_lossy(bytes).into_owned()
}

/// Relies on `String::from_utf8`: it succeeds exactly on valid UTF-8, and
/// the returned string's UTF-8 encoding is the input bytes.
#[verifier::external_body]
pub fn bytes_to_string(bytes: &Vec<u8>) -> (r: Option<String>)
    ensures
        r matches Some(s) ==> valid_utf8(bytes@) && s@ == decode_utf8(bytes@),
        r is None ==> !valid_utf8(bytes@),
{
    String::from_utf8(bytes.clone()).ok()
}

} // verus!
