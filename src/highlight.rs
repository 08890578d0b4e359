//! Whole-word highlighting of the looked-up word inside example sentences.

use vstd::prelude::*;

verus! {

/// Whether `c` is a word character (Unicode `\w`) in the sense of the `regex`
/// crate, on which its `\b` assertion rests.
pub uninterp spec fn is_word_char(c: char) -> bool;

/// Position `i` of `s` holds a word character.
pub open spec fn word_at(s: Seq<char>, i: int) -> bool {
    0 <= i < s.len() && is_word_char(s[i])
}

/// A word boundary (`\b`) at position `i`: a word character on exactly one
/// side of it, the outside of `s` counting as non-word.
pub open spec fn boundary_at(s: Seq<char>, i: int) -> bool {
    word_at(s, i - 1) != word_at(s, i)
}

/// `w` occurs in `s` at position `q` as a delimited token.
pub open spec fn delimited_at(s: Seq<char>, w: Seq<char>, q: int) -> bool {
    &&& 0 <= q
    &&& q + w.len() <= s.len()
    &&& s.subrange(q, q + w.len()) == w
    &&& boundary_at(s, q)
    &&& boundary_at(s, q + w.len())
}

/// The pieces `p` joined with `sep` between each two.
pub open spec fn join_with(p: Seq<Seq<char>>, sep: Seq<char>) -> Seq<char>
    decreases p.len(),
{
    if p.len() == 0 {
        Seq::empty()
    } else if p.len() == 1 {
        p[0]
    } else {
        join_with(p.drop_last(), sep) + sep + p.last()
    }
}

/// Where piece `i` starts in `join_with(p, sep)`.
pub open spec fn piece_start(p: Seq<Seq<char>>, sep: Seq<char>, i: int) -> int
    decreases i,
{
    if i <= 0 {
        0
    } else {
        piece_start(p, sep, i - 1) + p[i - 1].len() + sep.len()
    }
}

/// Where the separator that follows piece `i` starts.
pub open spec fn seam_at(p: Seq<Seq<char>>, sep: Seq<char>, i: int) -> int {
    piece_start(p, sep, i) + p[i].len()
}

/// `p` is `s` cut at the leftmost-first, non-overlapping delimited
/// occurrences of `w`: the pieces rejoin to `s`, a delimited occurrence
/// follows every piece but the last, and the search from the start of each
/// piece finds none before the piece's end.
pub open spec fn is_whole_word_split(s: Seq<char>, w: Seq<char>, p: Seq<Seq<char>>) -> bool {
    &&& p.len() >= 1
    &&& join_with(p, w) == s
    &&& forall|i: int| 0 <= i < p.len() - 1 ==> #[trigger] delimited_at(s, w, seam_at(p, w, i))
    &&& forall|i: int, q: int|
        #![trigger seam_at(p, w, i), delimited_at(s, w, q)]
        0 <= i < p.len() && piece_start(p, w, i) <= q < seam_at(p, w, i) ==> !delimited_at(s, w, q)
}

/// `Regex::new` refuses the whole-word pattern built from `word` (its
/// compiled form exceeds the default size limit); this depends on the word
/// alone.
pub uninterp spec fn regex_refused(word: Seq<char>) -> bool;

/// Relies on the regex crate: `Regex::new` on the pattern `\b` + `regex::escape(word)` + `\b`,
/// then `Regex::split` of the example. The escaped pattern matches `word`
/// literally, `\b` is a Unicode word boundary (`is_word_char` on one side
/// only), and `split` yields the text between the leftmost-first,
/// non-overlapping matches. `None` where the pattern is refused (its compiled
/// form exceeds the default size limit).
#[verifier::external_body]
fn whole_word_pieces(example: &str, word: &str) -> (r: Option<Vec<String>>)
    requires
        word@.len() > 0,
    ensures
        r is None ==> regex_refused(word@),
        r matches Some(p) ==> is_whole_word_split(example@, word@, p.deep_view()),
        r matches Some(p) ==> forall|i: int|
            0 <= i < p@.len() - 1 ==> {
                let j = #[trigger] seam_at(p.deep_view(), word@, i);
                let k = j + word@.len();
                &&& (0 < j && is_word_char(example@[j - 1])) != (j < example@.len()
                    && is_word_char(example@[j]))
                &&& (0 < k && is_word_char(example@[k - 1])) != (k < example@.len()
                    && is_word_char(example@[k]))
            },
{
    let re = regex::Regex::new(&format!(r"\b{}\b", regex::escape(word))).ok()?;
    Some(re.split(example).map(|piece| piece.to_string()).collect())
}

proof fn lemma_piece_start_monotone(p: Seq<Seq<char>>, sep: Seq<char>, i: int, j: int)
    requires
        0 <= i <= j,
    ensures
        piece_start(p, sep, i) <= piece_start(p, sep, j),
    decreases j - i,
{
    if i < j {
        lemma_piece_start_monotone(p, sep, i, j - 1);
    }
}

proof fn lemma_piece_start_prefix(p: Seq<Seq<char>>, sep: Seq<char>, i: int)
    requires
        0 <= i < p.len(),
    ensures
        piece_start(p.drop_last(), sep, i) == piece_start(p, sep, i),
    decreases i,
{
    if i > 0 {
        lemma_piece_start_prefix(p, sep, i - 1);
    }
}

proof fn lemma_join_len(p: Seq<Seq<char>>, sep: Seq<char>)
    requires
        p.len() >= 1,
    ensures
        join_with(p, sep).len() == piece_start(p, sep, p.len() - 1) + p.last().len(),
    decreases p.len(),
{
    if p.len() > 1 {
        lemma_join_len(p.drop_last(), sep);
        lemma_piece_start_prefix(p, sep, p.len() - 2);
    }
}

/// `marks` are the separators of the pieces `p` joined with `w`: one
/// (start, end) per seam, in order.
pub open spec fn marks_of_split(marks: Seq<(usize, usize)>, p: Seq<Seq<char>>, w: Seq<char>) -> bool {
    &&& marks.len() == p.len() - 1
    &&& forall|k: int|
        0 <= k < marks.len() ==> #[trigger] marks[k].0 == seam_at(p, w, k) && marks[k].1
            == marks[k].0 + w.len()
}

/// The marks (start, end) of the separators between `pieces`, positions in
/// characters of the joined text, when `word` is the separator.
pub fn marks_from_pieces(pieces: &Vec<String>, word: &str) -> (r: Vec<(usize, usize)>)
    requires
        pieces@.len() >= 1,
        join_with(pieces.deep_view(), word@).len() <= usize::MAX,
    ensures
        r@.len() == pieces@.len() - 1,
        forall|k: int|
            0 <= k < r@.len() ==> #[trigger] r@[k].0 == seam_at(pieces.deep_view(), word@, k)
                && r@[k].1 == r@[k].0 + word@.len(),
{
    let ghost p = pieces.deep_view();
    let ghost w = word@;
    proof {
        lemma_join_len(p, w);
    }
    let wlen = word.unicode_len();
    let n = pieces.len();
    let mut marks: Vec<(usize, usize)> = Vec::new();
    let mut offset: usize = 0;
    let mut i: usize = 0;
    while i + 1 < n
        invariant
            n == p.len(),
            p == pieces.deep_view(),
            w == word@,
            wlen == w.len(),
            0 <= i < n,
            offset == piece_start(p, w, i as int),
            join_with(p, w).len() == piece_start(p, w, p.len() - 1) + p.last().len(),
            join_with(p, w).len() <= usize::MAX,
            marks@.len() == i,
            forall|k: int|
                0 <= k < i ==> #[trigger] marks@[k].0 == seam_at(p, w, k) && marks@[k].1
                    == marks@[k].0 + w.len(),
        decreases n - i,
    {
        assert(p[i as int] == pieces@[i as int]@);
        let plen = pieces[i].as_str().unicode_len();
        proof {
            lemma_piece_start_monotone(p, w, i + 1, p.len() - 1);
        }
        let start = offset + plen;
        let end = start + wlen;
        marks.push((start, end));
        offset = end;
        i = i + 1;
    }
    marks
}

/// The marks of the delimited occurrences of `word` in `example`, in order.
/// Every mark covers `word` exactly and stands between word boundaries. Where
/// `word` is not empty and the search can be built, the marks are exactly
/// those of the whole-word split of `example` (its leftmost-first,
/// non-overlapping matches); where it cannot, there are none. An
/// empty `word` marks nothing.
pub fn pretty_example(example: &str, word: &str) -> (r: Vec<(usize, usize)>)
    ensures
        forall|k: int|
            0 <= k < r@.len() ==> #[trigger] r@[k].1 == r@[k].0 + word@.len() && delimited_at(
                example@,
                word@,
                r@[k].0 as int,
            ),
        forall|k: int| 0 <= k < r@.len() - 1 ==> #[trigger] r@[k].1 <= r@[k + 1].0,
        word@.len() == 0 ==> r@.len() == 0,
        word@.len() > 0 && !regex_refused(word@) ==> exists|p: Seq<Seq<char>>|
            is_whole_word_split(example@, word@, p) && marks_of_split(r@, p, word@),
{
    if word.unicode_len() == 0 {
        return Vec::new();
    }
    let total = example.unicode_len();
    match whole_word_pieces(example, word) {
        None => Vec::new(),
        Some(pieces) => {
            let marks = marks_from_pieces(&pieces, word);
            proof {
                let p = pieces.deep_view();
                assert forall|k: int| 0 <= k < marks@.len() - 1 implies #[trigger] marks@[k].1
                    <= marks@[k + 1].0 by {
                    assert(marks@[k + 1].0 == seam_at(p, word@, k + 1));
                    assert(marks@[k].0 == seam_at(p, word@, k));
                }
                assert forall|k: int| 0 <= k < marks@.len() implies #[trigger] marks@[k].1
                    == marks@[k].0 + word@.len() && delimited_at(
                    example@,
                    word@,
                    marks@[k].0 as int,
                ) by {
                    assert(marks@[k].0 == seam_at(p, word@, k));
                    assert(delimited_at(example@, word@, seam_at(p, word@, k)));
                }
                assert(marks_of_split(marks@, p, word@));
            }
            marks
        },
    }
}

} // verus!
