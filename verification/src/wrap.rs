use vstd::prelude::*;

use crate::text::{is_ws, split_ws, string_of, ws_scan};

verus! {

/// A word as `split_whitespace` gives it: non-empty, without whitespace.
pub open spec fn is_word(w: Seq<char>) -> bool {
    w.len() > 0 && forall|i: int| 0 <= i < w.len() ==> !is_ws(#[trigger] w[i])
}

/// The words of the lines, in order.
pub open spec fn words_of_lines(lines: Seq<Seq<char>>) -> Seq<Seq<char>>
    decreases lines.len(),
{
    if lines.len() == 0 {
        seq![]
    } else {
        words_of_lines(lines.drop_last()) + split_ws(lines.last())
    }
}

/// Scanning a word after a finished word: the word is the one in progress.
pub proof fn lemma_scan_word(p: Seq<char>, w: Seq<char>, k: int)
    requires
        ws_scan(p).1.len() == 0,
        is_word(w),
        0 <= k <= w.len(),
    ensures
        ws_scan(p + w.take(k)) == (ws_scan(p).0, w.take(k)),
    decreases k,
{
    if k == 0 {
        assert(p + w.take(0) =~= p);
    } else {
        lemma_scan_word(p, w, k - 1);
        assert((p + w.take(k)).drop_last() =~= p + w.take(k - 1));
        assert(w.take(k) =~= w.take(k - 1).push(w[k - 1]));
    }
}

/// A word alone is one word.
pub proof fn lemma_split_word(w: Seq<char>)
    requires
        is_word(w),
    ensures
        split_ws(w) == seq![w],
{
    let e: Seq<char> = seq![];
    lemma_scan_word(e, w, w.len() as int);
    assert(e + w.take(w.len() as int) =~= w);
}

/// A word after a space adds that word to the words before.
pub proof fn lemma_split_space_word(a: Seq<char>, w: Seq<char>)
    requires
        is_word(w),
    ensures
        split_ws(a + seq![' '] + w) == split_ws(a).push(w),
{
    let p = a.push(' ');
    assert(p.drop_last() =~= a);
    assert(ws_scan(p).0 == split_ws(a));
    assert(ws_scan(p).1.len() == 0);
    lemma_scan_word(p, w, w.len() as int);
    assert(w.take(w.len() as int) =~= w);
    assert(p + w.take(w.len() as int) =~= a + seq![' '] + w);
    assert(ws_scan(a + seq![' '] + w) == (split_ws(a), w));
}

/// The line a word would make with the words before it on the line: the word alone
/// on an empty line, else after a space.
pub open spec fn spec_candidate(current: Seq<char>, word: Seq<char>) -> Seq<char> {
    if current.len() == 0 {
        word
    } else {
        current + seq![' '] + word
    }
}

/// Word wrapping in progress: the finished lines and the line being filled.
///
/// The width of a candidate line is measured outside (it depends on the font); the
/// wrapper only decides, from the answer, where lines break.
pub struct WrapState {
    pub lines: Vec<Vec<char>>,
    pub current: Vec<char>,
}

/// Every finished line is non-empty.
pub open spec fn lines_nonempty(lines: Seq<Vec<char>>) -> bool {
    forall|i: int| 0 <= i < lines.len() ==> (#[trigger] lines[i])@.len() > 0
}

/// The finished lines, as character sequences.
pub open spec fn line_views(lines: Seq<Vec<char>>) -> Seq<Seq<char>> {
    lines.map_values(|l: Vec<char>| l@)
}

/// All words placed so far: those of the finished lines, then those of the line
/// being filled.
pub open spec fn placed_words(s: WrapState) -> Seq<Seq<char>> {
    words_of_lines(line_views(s.lines@)) + split_ws(s.current@)
}

/// A wrapping state as values: the finished lines and the line being filled.
pub open spec fn state_view(s: WrapState) -> (Seq<Seq<char>>, Seq<char>) {
    (line_views(s.lines@), s.current@)
}

/// The words of a wrapping state: those of its finished lines, then those of its
/// line being filled.
pub open spec fn words_in(st: (Seq<Seq<char>>, Seq<char>)) -> Seq<Seq<char>> {
    words_of_lines(st.0) + split_ws(st.1)
}

/// Every line is non-empty.
pub open spec fn all_nonempty(lines: Seq<Seq<char>>) -> bool {
    forall|i: int| 0 <= i < lines.len() ==> (#[trigger] lines[i]).len() > 0
}

/// Placing `word`, given whether its candidate line is too wide: too wide, the line
/// being filled is finished (where it has words) and the word starts the next;
/// otherwise the word joins the line.
pub open spec fn place_step(st: (Seq<Seq<char>>, Seq<char>), word: Seq<char>, too_wide: bool) -> (
    Seq<Seq<char>>,
    Seq<char>,
) {
    if too_wide {
        if st.1.len() > 0 {
            (st.0.push(st.1), word)
        } else {
            (st.0, word)
        }
    } else {
        (st.0, spec_candidate(st.1, word))
    }
}

/// Ending a source line: the line being filled is finished, where it has words.
pub open spec fn end_step(st: (Seq<Seq<char>>, Seq<char>)) -> (Seq<Seq<char>>, Seq<char>) {
    if st.1.len() > 0 {
        (st.0.push(st.1), seq![])
    } else {
        (st.0, seq![])
    }
}

/// Placing a word adds it, and only it, to the words placed, and finishes no empty
/// line.
pub proof fn lemma_place_step(st: (Seq<Seq<char>>, Seq<char>), word: Seq<char>, too_wide: bool)
    requires
        is_word(word),
    ensures
        words_in(place_step(st, word, too_wide)) == words_in(st).push(word),
        all_nonempty(st.0) ==> all_nonempty(place_step(st, word, too_wide).0),
{
    lemma_split_word(word);
    if too_wide {
        if st.1.len() > 0 {
            assert(st.0.push(st.1).drop_last() =~= st.0);
        } else {
            assert(split_ws(st.1) =~= Seq::<Seq<char>>::empty());
        }
    } else if st.1.len() == 0 {
        assert(split_ws(st.1) =~= Seq::<Seq<char>>::empty());
    } else {
        lemma_split_space_word(st.1, word);
    }
}

/// Ending a line keeps the words placed, and finishes no empty line.
pub proof fn lemma_end_step(st: (Seq<Seq<char>>, Seq<char>))
    ensures
        words_in(end_step(st)) == words_in(st),
        end_step(st).1.len() == 0,
        all_nonempty(st.0) ==> all_nonempty(end_step(st).0),
{
    let e: Seq<char> = seq![];
    assert(split_ws(e) =~= Seq::<Seq<char>>::empty());
    if st.1.len() > 0 {
        assert(st.0.push(st.1).drop_last() =~= st.0);
    } else {
        assert(split_ws(st.1) =~= Seq::<Seq<char>>::empty());
    }
}

/// Placing `words` in order, word `k` with the answer `wide(k)`.
pub open spec fn place_all(
    st: (Seq<Seq<char>>, Seq<char>),
    words: Seq<Seq<char>>,
    wide: spec_fn(int) -> bool,
) -> (Seq<Seq<char>>, Seq<char>)
    decreases words.len(),
{
    if words.len() == 0 {
        st
    } else {
        place_step(place_all(st, words.drop_last(), wide), words.last(), wide(words.len() - 1))
    }
}

/// Wrapping a whole text given as its lines: each line's words placed, then the line
/// ended; word `k` of line `i` with the answer `wide(i, k)`, whatever the answers are.
pub open spec fn wrap_all(text: Seq<Seq<char>>, wide: spec_fn(int, int) -> bool) -> (
    Seq<Seq<char>>,
    Seq<char>,
)
    decreases text.len(),
{
    if text.len() == 0 {
        (seq![], seq![])
    } else {
        let i = text.len() - 1;
        end_step(place_all(wrap_all(text.drop_last(), wide), split_ws(text.last()), |k: int| wide(i, k)))
    }
}

/// `split_whitespace` gives words.
pub proof fn lemma_split_ws_words(s: Seq<char>)
    ensures
        forall|i: int| 0 <= i < split_ws(s).len() ==> is_word(#[trigger] split_ws(s)[i]),
{
    lemma_ws_scan_words(s);
}

/// The scan behind `split_ws` finishes only words, and the word in progress holds
/// no whitespace.
proof fn lemma_ws_scan_words(s: Seq<char>)
    ensures
        forall|i: int| 0 <= i < ws_scan(s).0.len() ==> is_word(#[trigger] ws_scan(s).0[i]),
        forall|k: int| 0 <= k < ws_scan(s).1.len() ==> !is_ws(#[trigger] ws_scan(s).1[k]),
    decreases s.len(),
{
    if s.len() > 0 {
        lemma_ws_scan_words(s.drop_last());
        let (done, cur) = ws_scan(s.drop_last());
        let c = s.last();
        if !is_ws(c) {
            assert forall|k: int| 0 <= k < cur.push(c).len() implies !is_ws(#[trigger] cur.push(c)[k]) by {
                if k < cur.len() {
                    assert(cur.push(c)[k] == cur[k]);
                }
            }
        } else if cur.len() > 0 {
            assert forall|i: int| 0 <= i < done.push(cur).len() implies is_word(#[trigger] done.push(cur)[i]) by {
                if i < done.len() {
                    assert(done.push(cur)[i] == done[i]);
                }
            }
        }
    }
}

/// Placing words adds exactly those words, in order, and finishes no empty line.
pub proof fn lemma_place_all(st: (Seq<Seq<char>>, Seq<char>), words: Seq<Seq<char>>, wide: spec_fn(int) -> bool)
    requires
        forall|i: int| 0 <= i < words.len() ==> is_word(#[trigger] words[i]),
    ensures
        words_in(place_all(st, words, wide)) == words_in(st) + words,
        all_nonempty(st.0) ==> all_nonempty(place_all(st, words, wide).0),
    decreases words.len(),
{
    if words.len() == 0 {
        assert(words_in(st) + words =~= words_in(st));
    } else {
        let d = words.drop_last();
        assert forall|i: int| 0 <= i < d.len() implies is_word(#[trigger] d[i]) by {
            assert(d[i] == words[i]);
        }
        lemma_place_all(st, d, wide);
        assert(is_word(words[words.len() - 1]));
        lemma_place_step(place_all(st, d, wide), words.last(), wide(words.len() - 1));
        assert((words_in(st) + d).push(words.last()) =~= words_in(st) + words);
    }
}

/// Wrapping a whole text keeps every word of it, in order, whatever widths are
/// measured: the wrapped lines hold exactly the words of the text's lines; no
/// wrapped line is empty, and no line is left being filled.
pub proof fn law_wrap_keeps_every_word(text: Seq<Seq<char>>, wide: spec_fn(int, int) -> bool)
    ensures
        words_of_lines(wrap_all(text, wide).0) == words_of_lines(text),
        all_nonempty(wrap_all(text, wide).0),
        wrap_all(text, wide).1.len() == 0,
    decreases text.len(),
{
    if text.len() > 0 {
        let i = text.len() - 1;
        let prev = wrap_all(text.drop_last(), wide);
        law_wrap_keeps_every_word(text.drop_last(), wide);
        let ws = split_ws(text.last());
        lemma_split_ws_words(text.last());
        let f = |k: int| wide(i, k);
        lemma_place_all(prev, ws, f);
        lemma_end_step(place_all(prev, ws, f));
        let e: Seq<char> = seq![];
        assert(split_ws(e) =~= Seq::<Seq<char>>::empty());
        assert(words_in(prev) =~= words_of_lines(text.drop_last()));
        let last = end_step(place_all(prev, ws, f));
        assert(words_in(last) =~= words_of_lines(last.0));
    } else {
        assert(all_nonempty(Seq::<Seq<char>>::empty()));
    }
}

impl WrapState {
    /// No lines and an empty line being filled.
    pub fn new() -> (r: WrapState)
        ensures
            r.lines@.len() == 0,
            r.current@.len() == 0,
            state_view(r) == (Seq::<Seq<char>>::empty(), Seq::<char>::empty()),
            placed_words(r).len() == 0,
    {
        let r = WrapState { lines: Vec::new(), current: Vec::new() };
        assert(split_ws(r.current@) =~= Seq::<Seq<char>>::empty());
        assert(words_of_lines(line_views(r.lines@)) =~= Seq::<Seq<char>>::empty());
        r
    }

    /// The line to measure for `word` (`spec_candidate`).
    pub fn candidate(&self, word: &Vec<char>) -> (r: String)
        ensures
            r@ == spec_candidate(self.current@, word@),
    {
        let mut v: Vec<char> = Vec::new();
        if self.current.len() > 0 {
            let mut i: usize = 0;
            while i < self.current.len()
                invariant
                    i <= self.current@.len(),
                    v@ == self.current@.take(i as int),
                decreases self.current@.len() - i,
            {
                assert(self.current@.take(i + 1) =~= self.current@.take(i as int).push(
                    self.current@[i as int],
                ));
                v.push(self.current[i]);
                i = i + 1;
            }
            assert(self.current@.take(self.current@.len() as int) =~= self.current@);
            v.push(' ');
        }
        let ghost before = v@;
        let mut j: usize = 0;
        while j < word.len()
            invariant
                j <= word@.len(),
                v@ == before + word@.take(j as int),
            decreases word@.len() - j,
        {
            assert(word@.take(j + 1) =~= word@.take(j as int).push(word@[j as int]));
            v.push(word[j]);
            j = j + 1;
        }
        assert(word@.take(word@.len() as int) =~= word@);
        assert(v@ =~= spec_candidate(self.current@, word@));
        string_of(&v)
    }

    /// Places `word`, given whether its candidate line is too wide: too wide, the
    /// line so far is finished (where it has words) and the word starts the next;
    /// otherwise the word joins the line.  No word is lost, doubled or moved.
    pub fn place(&mut self, word: Vec<char>, too_wide: bool)
        requires
            is_word(word@),
            lines_nonempty(old(self).lines@),
        ensures
            placed_words(*final(self)) == placed_words(*old(self)).push(word@),
            state_view(*final(self)) == place_step(state_view(*old(self)), word@, too_wide),
            lines_nonempty(final(self).lines@),
            too_wide ==> final(self).current@ == word@,
            !too_wide ==> final(self).current@ == spec_candidate(old(self).current@, word@),
            too_wide && old(self).current@.len() > 0 ==> final(self).lines@ == old(
                self,
            ).lines@.push(old(self).current),
            !(too_wide && old(self).current@.len() > 0) ==> final(self).lines@ == old(
                self,
            ).lines@,
    {
        let ghost lv = line_views(self.lines@);
        proof {
            lemma_split_word(word@);
        }
        if too_wide {
            if self.current.len() > 0 {
                let mut line = word;
                std::mem::swap(&mut line, &mut self.current);
                self.lines.push(line);
                assert(line_views(self.lines@) =~= lv.push(old(self).current@));
                assert(line_views(self.lines@).drop_last() =~= lv);
            } else {
                self.current = word;
                assert(split_ws(old(self).current@) =~= Seq::<Seq<char>>::empty());
            }
        } else {
            if self.current.len() == 0 {
                assert(split_ws(old(self).current@) =~= Seq::<Seq<char>>::empty());
                self.current = word;
            } else {
                proof {
                    lemma_split_space_word(self.current@, word@);
                }
                self.current.push(' ');
                let mut j: usize = 0;
                let ghost before = self.current@;
                while j < word.len()
                    invariant
                        j <= word@.len(),
                        self.current@ == before + word@.take(j as int),
                        self.lines == old(self).lines,
                    decreases word@.len() - j,
                {
                    assert(word@.take(j + 1) =~= word@.take(j as int).push(word@[j as int]));
                    self.current.push(word[j]);
                    j = j + 1;
                }
                assert(word@.take(word@.len() as int) =~= word@);
                assert(self.current@ =~= old(self).current@ + seq![' '] + word@);
            }
        }
    }

    /// Ends a source line: the line being filled is finished, where it has words.
    pub fn end_line(&mut self)
        requires
            lines_nonempty(old(self).lines@),
        ensures
            placed_words(*final(self)) == placed_words(*old(self)),
            state_view(*final(self)) == end_step(state_view(*old(self))),
            lines_nonempty(final(self).lines@),
            final(self).current@.len() == 0,
            old(self).current@.len() > 0 ==> final(self).lines@ == old(self).lines@.push(
                old(self).current,
            ),
            old(self).current@.len() == 0 ==> final(self).lines@ == old(self).lines@,
    {
        let ghost lv = line_views(self.lines@);
        if self.current.len() > 0 {
            let mut line: Vec<char> = Vec::new();
            std::mem::swap(&mut line, &mut self.current);
            self.lines.push(line);
            assert(line_views(self.lines@) =~= lv.push(old(self).current@));
            assert(line_views(self.lines@).drop_last() =~= lv);
        } else {
            assert(split_ws(old(self).current@) =~= Seq::<Seq<char>>::empty());
        }
        assert(split_ws(self.current@) =~= Seq::<Seq<char>>::empty());
    }

    /// The finished lines as strings.
    pub fn into_lines(self) -> (r: Vec<String>)
        ensures
            r@.len() == self.lines@.len(),
            forall|i: int| 0 <= i < r@.len() ==> (#[trigger] r@[i])@ == self.lines@[i]@,
    {
        let mut r: Vec<String> = Vec::new();
        let mut i: usize = 0;
        while i < self.lines.len()
            invariant
                i <= self.lines@.len(),
                r@.len() == i,
                forall|k: int| 0 <= k < i ==> (#[trigger] r@[k])@ == self.lines@[k]@,
            decreases self.lines@.len() - i,
        {
            r.push(string_of(&self.lines[i]));
            i = i + 1;
        }
        r
    }
}

} // verus!
