use vstd::prelude::*;
use vstd::string::StrSliceExecFns;
use vstd::utf8::{encode_scalar, encode_utf8};

verus! {

/// One token of the analysis stream: its text, the byte range it covers in
/// the segmented text, and the position metadata the index engine uses for
/// phrase and proximity scoring.
#[derive(Debug, Clone)]
pub struct Token {
    pub text: String,
    pub offset_from: usize,
    pub offset_to: usize,
    pub position: usize,
    pub position_length: usize,
}

/// The simplified-script form of `s`, as the script normalizer computes it.
pub uninterp spec fn simplified_of(s: Seq<char>) -> Seq<char>;

/// The dictionary segmentation of `s` in search mode: possibly-overlapping
/// `[start, end)` character ranges of multiple granularities, in emission
/// order.
pub uninterp spec fn dict_segments(s: Seq<char>) -> Seq<(usize, usize)>;

/// Relies on fast2s::convert: collapses traditional Chinese character forms
/// to their simplified variants, pushing exactly one output character for
/// each input character; every character it maps has a three-byte encoding
/// on both sides and all others pass through unchanged, so each output
/// character keeps its input's encoded width; the result depends on the
/// characters alone.
#[verifier::external_body]
fn to_simplified(text: &str) -> (r: String)
    ensures
        r@ == simplified_of(text@),
        r@.len() == text@.len(),
        forall|i: int|
            0 <= i < text@.len() ==> encode_scalar(#[trigger] r@[i] as u32).len() == encode_scalar(
                text@[i] as u32,
            ).len(),
{
    fast2s::convert(text)
}

/// Relies on jieba_rs::Jieba::tokenize in search mode, with the bundled
/// default dictionary and no HMM: each token covers a non-empty character
/// range `[start, end)` within the text, an empty text yields no tokens, and
/// the result depends on the characters alone.
#[verifier::external_body]
fn segment_text(text: &str) -> (r: Vec<(usize, usize)>)
    ensures
        r@ == dict_segments(text@),
        text@.len() == 0 ==> r@.len() == 0,
        forall|k: int|
            0 <= k < r@.len() ==> (#[trigger] r@[k]).0 < r@[k].1 && r@[k].1 <= text@.len(),
{
    let jieba = jieba_rs::Jieba::new();
    let tokens = jieba.tokenize(text, jieba_rs::TokenizeMode::Search, false);
    tokens.iter().map(|t| (t.start, t.end)).collect()
}

/// Encoding a concatenation encodes the parts in order.
pub proof fn lemma_encode_utf8_concat(a: Seq<char>, b: Seq<char>)
    ensures
        encode_utf8(a + b) == encode_utf8(a) + encode_utf8(b),
    decreases a.len(),
{
    if a.len() == 0 {
        assert(a + b =~= b);
        assert(encode_utf8(a) + encode_utf8(b) =~= encode_utf8(b));
    } else {
        assert((a + b).len() > 0);
        assert((a + b)[0] == a[0]);
        assert((a + b).drop_first() =~= a.drop_first() + b);
        lemma_encode_utf8_concat(a.drop_first(), b);
        assert(encode_scalar(a[0] as u32) + (encode_utf8(a.drop_first()) + encode_utf8(b)) =~= (
        encode_scalar(a[0] as u32) + encode_utf8(a.drop_first())) + encode_utf8(b));
    }
}

/// Encoding one more character appends that character's encoding.
pub proof fn lemma_encode_utf8_push(a: Seq<char>, c: char)
    ensures
        encode_utf8(a.push(c)) == encode_utf8(a) + encode_scalar(c as u32),
{
    assert(a.push(c) =~= a + seq![c]);
    lemma_encode_utf8_concat(a, seq![c]);
    assert(seq![c].drop_first() =~= Seq::<char>::empty());
    assert(encode_utf8(Seq::<char>::empty()) =~= Seq::<u8>::empty());
    assert(seq![c][0] == c);
    assert(encode_utf8(seq![c]) == encode_scalar(c as u32) + encode_utf8(seq![c].drop_first()));
    assert(encode_scalar(c as u32) + Seq::<u8>::empty() =~= encode_scalar(c as u32));
}

/// Two texts whose characters have pairwise equal encoded widths have
/// prefixes of equal byte length at every character boundary.
pub proof fn lemma_equal_widths_equal_prefix_bytes(a: Seq<char>, b: Seq<char>, i: int)
    requires
        a.len() == b.len(),
        forall|j: int|
            0 <= j < a.len() ==> encode_scalar(#[trigger] a[j] as u32).len() == encode_scalar(
                b[j] as u32,
            ).len(),
        0 <= i <= a.len(),
    ensures
        encode_utf8(a.subrange(0, i)).len() == encode_utf8(b.subrange(0, i)).len(),
    decreases i,
{
    if i == 0 {
        assert(a.subrange(0, 0) =~= Seq::<char>::empty());
        assert(b.subrange(0, 0) =~= Seq::<char>::empty());
    } else {
        lemma_equal_widths_equal_prefix_bytes(a, b, i - 1);
        assert(a.subrange(0, i) =~= a.subrange(0, i - 1).push(a[i - 1]));
        assert(b.subrange(0, i) =~= b.subrange(0, i - 1).push(b[i - 1]));
        lemma_encode_utf8_push(a.subrange(0, i - 1), a[i - 1]);
        lemma_encode_utf8_push(b.subrange(0, i - 1), b[i - 1]);
    }
}

/// A longer character prefix never encodes to fewer bytes.
pub proof fn lemma_prefix_bytes_monotone(s: Seq<char>, i: int, j: int)
    requires
        0 <= i <= j <= s.len(),
    ensures
        encode_utf8(s.subrange(0, i)).len() <= encode_utf8(s.subrange(0, j)).len(),
{
    let a = s.subrange(0, i);
    let mid = s.subrange(i, j);
    assert(s.subrange(0, j) =~= a + mid);
    lemma_encode_utf8_concat(a, mid);
}

/// The byte length of one character's encoding, computed from its scalar
/// value range.
fn char_utf8_len(c: char) -> (n: usize)
    ensures
        n == encode_scalar(c as u32).len(),
        1 <= n <= 4,
{
    let v = c as u32;
    if v < 0x80 {
        1
    } else if v < 0x800 {
        2
    } else if v < 0x10000 {
        3
    } else {
        4
    }
}

/// The table of character boundary byte offsets of `s`: entry `i` is the
/// byte offset where character `i` starts, and the terminal sentinel entry
/// is the total byte length, so every token end resolves by index lookup.
pub fn char_boundaries(s: &str) -> (r: Vec<usize>)
    ensures
        r@.len() == s@.len() + 1,
        forall|i: int| 0 <= i <= s@.len() ==> r@[i] == encode_utf8(s@.subrange(0, i)).len(),
{
    let n = s.unicode_len();
    let total = s.as_bytes().len();
    proof {
        assert(s@.subrange(0, s@.len() as int) =~= s@);
    }
    let mut r: Vec<usize> = Vec::new();
    let mut off: usize = 0;
    r.push(0);
    proof {
        assert(s@.subrange(0, 0) =~= Seq::<char>::empty());
    }
    let mut i: usize = 0;
    while i < n
        invariant
            0 <= i <= n,
            n == s@.len(),
            total == encode_utf8(s@).len(),
            r@.len() == i + 1,
            off == encode_utf8(s@.subrange(0, i as int)).len(),
            forall|j: int| 0 <= j <= i ==> r@[j] == encode_utf8(s@.subrange(0, j)).len(),
        decreases n - i,
    {
        let c = s.get_char(i);
        let w = char_utf8_len(c);
        proof {
            assert(s@.subrange(0, i as int + 1) =~= s@.subrange(0, i as int).push(s@[i as int]));
            lemma_encode_utf8_push(s@.subrange(0, i as int), s@[i as int]);
            lemma_prefix_bytes_monotone(s@, i as int + 1, s@.len() as int);
            assert(s@.subrange(0, s@.len() as int) =~= s@);
        }
        off = off + w;
        r.push(off);
        i = i + 1;
    }
    r
}

/// Segments `text` for search: the text is first normalized to its
/// simplified form, then cut by the dictionary segmenter in a recall-oriented
/// mode that may emit several overlapping tokens over one span. Token `k`
/// carries the covered text, its byte offsets into the normalized text read
/// from the boundary table, the always-odd position `2k + 1` — the numeric
/// gaps leave room for finer-grained sub-tokens without renumbering — and a
/// `position_length` equal to the total token count of this call.
pub fn token_stream(text: &str) -> (r: Vec<Token>)
    ensures
        ({
            let norm = simplified_of(text@);
            let segs = dict_segments(norm);
            &&& norm.len() == text@.len()
            &&& (2 * segs.len() + 1 <= usize::MAX ==> r@.len() == segs.len())
            &&& (2 * segs.len() + 1 > usize::MAX ==> r@.len() == 0)
            &&& (text@.len() == 0 ==> r@.len() == 0)
            &&& forall|k: int|
                0 <= k < r@.len() ==> {
                    let seg = segs[k];
                    &&& seg.0 < seg.1 <= norm.len()
                    &&& (#[trigger] r@[k]).text@ == norm.subrange(seg.0 as int, seg.1 as int)
                    &&& r@[k].offset_from == encode_utf8(norm.subrange(0, seg.0 as int)).len()
                    &&& r@[k].offset_to == encode_utf8(norm.subrange(0, seg.1 as int)).len()
                    &&& r@[k].offset_from == encode_utf8(text@.subrange(0, seg.0 as int)).len()
                    &&& r@[k].offset_to == encode_utf8(text@.subrange(0, seg.1 as int)).len()
                    &&& r@[k].offset_from <= r@[k].offset_to <= encode_utf8(norm).len()
                    &&& r@[k].offset_to <= encode_utf8(text@).len()
                    &&& r@[k].position == 2 * k + 1
                    &&& r@[k].position % 2 == 1
                    &&& r@[k].position_length == segs.len()
                }
            &&& forall|k: int, l: int|
                0 <= k < l < r@.len() ==> r@[k].position < r@[l].position
        }),
{
    let normalized = to_simplified(text);
    let bounds = char_boundaries(normalized.as_str());
    let segs = segment_text(normalized.as_str());
    let n = segs.len();
    if n > (usize::MAX - 1) / 2 {
        return Vec::new();
    }
    let ghost norm = simplified_of(text@);
    let mut tokens: Vec<Token> = Vec::new();
    let mut k: usize = 0;
    while k < n
        invariant
            0 <= k <= n,
            n == dict_segments(norm).len(),
            2 * n + 1 <= usize::MAX,
            norm == normalized@,
            segs@ == dict_segments(norm),
            forall|j: int|
                0 <= j < segs@.len() ==> (#[trigger] segs@[j]).0 < segs@[j].1 && segs@[j].1
                    <= norm.len(),
            bounds@.len() == norm.len() + 1,
            forall|i: int| 0 <= i <= norm.len() ==> bounds@[i] == encode_utf8(
                norm.subrange(0, i),
            ).len(),
            tokens@.len() == k,
            forall|j: int|
                0 <= j < k ==> {
                    let seg = dict_segments(norm)[j];
                    &&& (#[trigger] tokens@[j]).text@ == norm.subrange(seg.0 as int, seg.1 as int)
                    &&& tokens@[j].offset_from == encode_utf8(norm.subrange(0, seg.0 as int)).len()
                    &&& tokens@[j].offset_to == encode_utf8(norm.subrange(0, seg.1 as int)).len()
                    &&& tokens@[j].offset_from <= tokens@[j].offset_to <= encode_utf8(norm).len()
                    &&& tokens@[j].position == 2 * j + 1
                    &&& tokens@[j].position % 2 == 1
                    &&& tokens@[j].position_length == dict_segments(norm).len()
                },
        decreases n - k,
    {
        let seg = segs[k];
        let token_text = normalized.as_str().substring_char(seg.0, seg.1).to_owned();
        proof {
            lemma_prefix_bytes_monotone(norm, seg.0 as int, seg.1 as int);
            lemma_prefix_bytes_monotone(norm, seg.1 as int, norm.len() as int);
            assert(norm.subrange(0, norm.len() as int) =~= norm);
        }
        let token = Token {
            text: token_text,
            offset_from: bounds[seg.0],
            offset_to: bounds[seg.1],
            position: 2 * k + 1,
            position_length: n,
        };
        tokens.push(token);
        k = k + 1;
    }
    proof {
        assert(norm.subrange(0, norm.len() as int) =~= norm);
        assert(text@.subrange(0, text@.len() as int) =~= text@);
        lemma_equal_widths_equal_prefix_bytes(norm, text@, norm.len() as int);
        assert forall|j: int| 0 <= j < tokens@.len() implies {
            let seg = dict_segments(norm)[j];
            &&& (#[trigger] tokens@[j]).offset_from == encode_utf8(
                text@.subrange(0, seg.0 as int),
            ).len()
            &&& tokens@[j].offset_to == encode_utf8(text@.subrange(0, seg.1 as int)).len()
            &&& tokens@[j].offset_to <= encode_utf8(text@).len()
        } by {
            let seg = dict_segments(norm)[j];
            lemma_equal_widths_equal_prefix_bytes(norm, text@, seg.0 as int);
            lemma_equal_widths_equal_prefix_bytes(norm, text@, seg.1 as int);
        }
    }
    tokens
}

} // verus!
