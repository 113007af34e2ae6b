//! The sequence view: a mutable sequence of elements of one of three kinds
//! (bytes, characters, text lines), each kind with its own serialization.
//!
//! - bytes are written verbatim,
//! - characters are written as their UTF-8 encoding,
//! - lines are written joined by a single line feed, with no trailing one.
use vstd::prelude::*;
use vstd::utf8::encode_utf8;

use crate::encoding;
use crate::rules::{
    apply_rule, keep_upto, lemma_apply_rule_encode_len, lemma_apply_rule_len, rule_valid,
    RuleModel,
};

verus! {

/// The granularity a sequence is made of.
#[derive(Copy, Clone, Debug, PartialEq, Eq, Structural)]
pub enum Mode {
    Bytes,
    Lines,
    Chars,
}

/// The characters of a sequence of lines, joined by a single line feed.
pub open spec fn spec_join_lines(ls: Seq<Seq<char>>) -> Seq<char>
    decreases ls.len(),
{
    if ls.len() == 0 {
        Seq::empty()
    } else if ls.len() == 1 {
        ls[0]
    } else {
        ls[0] + seq!['\n'] + spec_join_lines(ls.drop_first())
    }
}

/// Joining one more line appends a line feed and that line.
pub proof fn lemma_join_lines_push(ls: Seq<Seq<char>>, line: Seq<char>)
    requires
        ls.len() >= 1,
    ensures
        spec_join_lines(ls.push(line)) == spec_join_lines(ls) + seq!['\n'] + line,
    decreases ls.len(),
{
    if ls.len() == 1 {
        let p = ls.push(line);
        assert(p.len() == 2);
        assert(p[0] == ls[0]);
        assert(p.drop_first() =~= seq![line]);
        assert(spec_join_lines(seq![line]) == line);
        assert(spec_join_lines(ls) == ls[0]);
    } else {
        lemma_join_lines_push(ls.drop_first(), line);
        let p = ls.push(line);
        assert(p.drop_first() =~= ls.drop_first().push(line));
        assert(p[0] == ls[0]);
        assert(ls[0] + seq!['\n'] + (spec_join_lines(ls.drop_first()) + seq!['\n'] + line) =~= (
        ls[0] + seq!['\n'] + spec_join_lines(ls.drop_first())) + seq!['\n'] + line);
    }
}


/// Joining two non-empty line lists inserts one line feed between them.
pub proof fn lemma_join_lines_concat(a: Seq<Seq<char>>, b: Seq<Seq<char>>)
    requires
        a.len() >= 1,
        b.len() >= 1,
    ensures
        spec_join_lines(a + b) == spec_join_lines(a) + seq!['\n'] + spec_join_lines(b),
    decreases a.len(),
{
    if a.len() == 1 {
        let c = a + b;
        assert(c[0] == a[0]);
        assert(c.drop_first() =~= b);
        assert(c.len() >= 2);
        assert(spec_join_lines(a) == a[0]);
    } else {
        lemma_join_lines_concat(a.drop_first(), b);
        let c = a + b;
        assert(c[0] == a[0]);
        assert(c.drop_first() =~= a.drop_first() + b);
        assert(a[0] + seq!['\n'] + (spec_join_lines(a.drop_first()) + seq!['\n']
            + spec_join_lines(b)) =~= (a[0] + seq!['\n'] + spec_join_lines(a.drop_first()))
            + seq!['\n'] + spec_join_lines(b));
    }
}

/// The encoded length of two character runs glued with a line feed.
proof fn lemma_encode_glue_len(x: Seq<char>, y: Seq<char>)
    ensures
        encode_utf8(x + seq!['\n'] + y).len() == encode_utf8(x).len() + 1 + encode_utf8(y).len(),
{
    encoding::lemma_encode_utf8_concat(x + seq!['\n'], y);
    encoding::lemma_encode_utf8_concat(x, seq!['\n']);
    encoding::lemma_encode_newline();
}

proof fn lemma_join_encode_keep_upto(ls: Seq<Seq<char>>, removed: Seq<usize>, i: int)
    requires
        0 <= i <= ls.len(),
    ensures
        encode_utf8(spec_join_lines(keep_upto(ls, removed, i))).len() <= encode_utf8(
            spec_join_lines(ls.take(i)),
        ).len(),
    decreases i,
{
    if i > 0 {
        lemma_join_encode_keep_upto(ls, removed, i - 1);
        let kept_before = keep_upto(ls, removed, i - 1);
        let taken_before = ls.take(i - 1);
        let line = ls[i - 1];
        assert(ls.take(i) =~= taken_before.push(line));
        if i == 1 {
            assert(taken_before.push(line) =~= seq![line]);
            assert(spec_join_lines(seq![line]) == line);
            if removed.contains((i - 1) as usize) {
                assert(keep_upto(ls, removed, i) =~= kept_before);
                assert(kept_before =~= Seq::<Seq<char>>::empty());
                assert(spec_join_lines(Seq::<Seq<char>>::empty()) =~= Seq::<char>::empty());
                assert(encode_utf8(Seq::<char>::empty()) =~= Seq::<u8>::empty());
            } else {
                assert(keep_upto(ls, removed, i) =~= seq![line]);
            }
        } else {
            lemma_join_lines_push(taken_before, line);
            lemma_encode_glue_len(spec_join_lines(taken_before), line);
            if removed.contains((i - 1) as usize) {
                assert(keep_upto(ls, removed, i) =~= kept_before);
            } else {
                assert(keep_upto(ls, removed, i) =~= kept_before.push(line));
                if kept_before.len() == 0 {
                    assert(kept_before.push(line) =~= seq![line]);
                    assert(spec_join_lines(seq![line]) == line);
                    assert(spec_join_lines(Seq::<Seq<char>>::empty()) =~= Seq::<char>::empty());
                    assert(encode_utf8(Seq::<char>::empty()) =~= Seq::<u8>::empty());
                } else {
                    lemma_join_lines_push(kept_before, line);
                    lemma_encode_glue_len(spec_join_lines(kept_before), line);
                }
            }
        }
    } else {
        assert(ls.take(0) =~= Seq::<Seq<char>>::empty());
        assert(keep_upto(ls, removed, 0) =~= Seq::<Seq<char>>::empty());
    }
}

/// A valid rule never grows the joined, encoded form of a line list.
proof fn lemma_apply_rule_join_encode_len(m: RuleModel, ls: Seq<Seq<char>>)
    requires
        rule_valid(m, ls.len()),
    ensures
        encode_utf8(spec_join_lines(apply_rule(m, ls))).len() <= encode_utf8(
            spec_join_lines(ls),
        ).len(),
{
    match m {
        RuleModel::Continuous { lo, hi } => {
            let n = ls.len() as int;
            let pre = ls.subrange(0, lo);
            let mid = ls.subrange(lo, hi);
            let suf = ls.subrange(hi, n);
            if lo == 0 {
                assert(pre + suf =~= suf);
                assert(ls =~= mid + suf);
                lemma_join_lines_concat(mid, suf);
                lemma_encode_glue_len(spec_join_lines(mid), spec_join_lines(suf));
            } else if hi == n {
                assert(pre + suf =~= pre);
                assert(ls =~= pre + mid);
                lemma_join_lines_concat(pre, mid);
                lemma_encode_glue_len(spec_join_lines(pre), spec_join_lines(mid));
            } else {
                let rest = ls.subrange(lo, n);
                assert(ls =~= pre + rest);
                assert(rest =~= mid + suf);
                lemma_join_lines_concat(pre, rest);
                lemma_encode_glue_len(spec_join_lines(pre), spec_join_lines(rest));
                lemma_join_lines_concat(mid, suf);
                lemma_encode_glue_len(spec_join_lines(mid), spec_join_lines(suf));
                lemma_join_lines_concat(pre, suf);
                lemma_encode_glue_len(spec_join_lines(pre), spec_join_lines(suf));
            }
        },
        RuleModel::Sparse { idxs } => {
            lemma_join_encode_keep_upto(ls, idxs, ls.len() as int);
            assert(ls.take(ls.len() as int) =~= ls);
        },
    }
}

/// An element kind that a sequence can be made of, together with the
/// serialization used when a sequence of this kind is written to a file.
pub trait SaveSliceToFile: DeepView + Sized {
    /// The bytes that a sequence of these elements serializes to.
    spec fn spec_serialize(data: Seq<Self::V>) -> Seq<u8>;

    /// The serialized form of `data`, exactly the bytes written to a file.
    fn serialize_slice(data: &Vec<Self>) -> (r: Vec<u8>)
        ensures
            r@ == Self::spec_serialize(data.deep_view()),
    ;

    /// A copy of one element, equal up to the view.
    fn clone_item(&self) -> (r: Self)
        ensures
            r.deep_view() == self.deep_view(),
    ;

    /// A valid removal never grows the serialized form: whatever the
    /// output path holds can only shrink.
    proof fn lemma_serialize_len_monotone(m: RuleModel, data: Seq<Self::V>)
        requires
            rule_valid(m, data.len()),
        ensures
            Self::spec_serialize(apply_rule(m, data)).len() <= Self::spec_serialize(data).len(),
    ;
}

impl SaveSliceToFile for u8 {
    /// Bytes are written verbatim.
    open spec fn spec_serialize(data: Seq<u8>) -> Seq<u8> {
        data
    }

    fn serialize_slice(data: &Vec<u8>) -> (r: Vec<u8>) {
        let mut r: Vec<u8> = Vec::new();
        let n = data.len();
        for i in 0..n
            invariant
                n == data@.len(),
                r@ == data.deep_view().take(i as int),
        {
            r.push(data[i]);
            proof {
                assert(r@ =~= data.deep_view().take(i + 1 as int));
            }
        }
        proof {
            assert(data.deep_view().take(n as int) =~= data.deep_view());
        }
        r
    }

    fn clone_item(&self) -> (r: u8) {
        *self
    }

    proof fn lemma_serialize_len_monotone(m: RuleModel, data: Seq<u8>) {
        lemma_apply_rule_len(m, data);
    }
}

impl SaveSliceToFile for char {
    /// Characters are written as their UTF-8 encoding.
    open spec fn spec_serialize(data: Seq<char>) -> Seq<u8> {
        encode_utf8(data)
    }

    fn serialize_slice(data: &Vec<char>) -> (r: Vec<u8>) {
        let r = encoding::encode_chars(data);
        proof {
            assert(data@ =~= data.deep_view());
        }
        r
    }

    fn clone_item(&self) -> (r: char) {
        *self
    }

    proof fn lemma_serialize_len_monotone(m: RuleModel, data: Seq<char>) {
        lemma_apply_rule_encode_len(m, data);
    }
}

impl SaveSliceToFile for String {
    /// Lines are joined by a single line feed and written as UTF-8.
    open spec fn spec_serialize(data: Seq<Seq<char>>) -> Seq<u8> {
        encode_utf8(spec_join_lines(data))
    }

    fn serialize_slice(data: &Vec<String>) -> (r: Vec<u8>) {
        let mut r: Vec<u8> = Vec::new();
        let n = data.len();
        for i in 0..n
            invariant
                n == data@.len(),
                r@ == encode_utf8(spec_join_lines(data.deep_view().take(i as int))),
        {
            if i > 0 {
                r.push(10u8);
            }
            let mut line_bytes = data[i].as_str().as_bytes_vec();
            r.append(&mut line_bytes);
            proof {
                let dv = data.deep_view();
                if i == 0 {
                    assert(dv.take(1int)[0] == dv[0]);
                    assert(spec_join_lines(dv.take(1int)) == dv[0]);
                    assert(encode_utf8(spec_join_lines(dv.take(0int)))
                        =~= Seq::<u8>::empty()) by {
                        assert(dv.take(0int) =~= Seq::<Seq<char>>::empty());
                        assert(spec_join_lines(Seq::<Seq<char>>::empty())
                            =~= Seq::<char>::empty());
                    }
                    assert(r@ =~= encode_utf8(spec_join_lines(dv.take(1int))));
                } else {
                    lemma_join_lines_push(dv.take(i as int), dv[i as int]);
                    assert(dv.take(i as int).push(dv[i as int]) =~= dv.take(i + 1 as int));
                    encoding::lemma_encode_utf8_concat(
                        spec_join_lines(dv.take(i as int)) + seq!['\n'],
                        dv[i as int],
                    );
                    encoding::lemma_encode_utf8_concat(
                        spec_join_lines(dv.take(i as int)),
                        seq!['\n'],
                    );
                    encoding::lemma_encode_newline();
                    assert(r@ =~= encode_utf8(spec_join_lines(dv.take(i + 1 as int))));
                }
            }
        }
        proof {
            assert(data.deep_view().take(n as int) =~= data.deep_view());
        }
        r
    }

    fn clone_item(&self) -> (r: String) {
        self.clone()
    }

    proof fn lemma_serialize_len_monotone(m: RuleModel, data: Seq<Seq<char>>) {
        lemma_apply_rule_join_encode_len(m, data);
    }
}

/// Uniform access to a mutable sequence of one element kind: read the
/// elements, replace them wholesale, query length and mode.
pub trait DataTraits<T: SaveSliceToFile>: Sized {
    /// The sequence of element views this value holds.
    spec fn data(&self) -> Seq<T::V>;

    /// The mode tag this value carries.
    spec fn spec_mode(&self) -> Mode;

    fn get_vec(&self) -> (r: &Vec<T>)
        ensures
            r.deep_view() == self.data(),
    ;

    fn replace_vec(&mut self, new_vec: Vec<T>)
        ensures
            final(self).data() == new_vec.deep_view(),
            final(self).spec_mode() == old(self).spec_mode(),
    ;

    fn len(&self) -> (r: usize)
        ensures
            r == self.data().len(),
    ;

    fn get_mode(&self) -> (r: Mode)
        ensures
            r == self.spec_mode(),
    ;
}

/// A sequence of raw bytes.
pub struct MinimizationBytes {
    pub mode: Mode,
    pub bytes: Vec<u8>,
}

impl DataTraits<u8> for MinimizationBytes {
    open spec fn data(&self) -> Seq<u8> {
        self.bytes.deep_view()
    }

    open spec fn spec_mode(&self) -> Mode {
        self.mode
    }

    fn get_vec(&self) -> (r: &Vec<u8>) {
        &self.bytes
    }

    fn replace_vec(&mut self, new_vec: Vec<u8>) {
        self.bytes = new_vec;
    }

    fn len(&self) -> (r: usize) {
        self.bytes.len()
    }

    fn get_mode(&self) -> (r: Mode) {
        self.mode
    }
}

/// A sequence of text lines.
pub struct MinimizationLines {
    pub mode: Mode,
    pub lines: Vec<String>,
}

impl DataTraits<String> for MinimizationLines {
    open spec fn data(&self) -> Seq<Seq<char>> {
        self.lines.deep_view()
    }

    open spec fn spec_mode(&self) -> Mode {
        self.mode
    }

    fn get_vec(&self) -> (r: &Vec<String>) {
        &self.lines
    }

    fn replace_vec(&mut self, new_vec: Vec<String>) {
        self.lines = new_vec;
    }

    fn len(&self) -> (r: usize) {
        self.lines.len()
    }

    fn get_mode(&self) -> (r: Mode) {
        self.mode
    }
}

/// A sequence of Unicode characters.
pub struct MinimizationChars {
    pub mode: Mode,
    pub chars: Vec<char>,
}

impl DataTraits<char> for MinimizationChars {
    open spec fn data(&self) -> Seq<char> {
        self.chars.deep_view()
    }

    open spec fn spec_mode(&self) -> Mode {
        self.mode
    }

    fn get_vec(&self) -> (r: &Vec<char>) {
        &self.chars
    }

    fn replace_vec(&mut self, new_vec: Vec<char>) {
        self.chars = new_vec;
    }

    fn len(&self) -> (r: usize) {
        self.chars.len()
    }

    fn get_mode(&self) -> (r: Mode) {
        self.mode
    }
}

} // verus!
