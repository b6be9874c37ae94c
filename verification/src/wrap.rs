//! Greedy word wrapping of styled lines to the width of a pane. Words move
//! to the next row when they do not fit; a word longer than a whole row is
//! split; every input line gives at least one row, so blank lines keep their
//! height.

use vstd::prelude::*;

use crate::text::pieces;

verus! {

/// A piece of text drawn in one style.
#[derive(Clone, Debug)]
pub struct StyledText<S> {
    pub text: String,
    pub style: S,
}

impl<S> View for StyledText<S> {
    type V = (Seq<char>, S);

    open spec fn view(&self) -> (Seq<char>, S) {
        (self.text@, self.style)
    }
}

/// A row as a reader sees it: its pieces of text and their styles.
pub open spec fn row_model<S>(row: Seq<StyledText<S>>) -> Seq<(Seq<char>, S)> {
    row.map_values(|t: StyledText<S>| t@)
}

/// Rows as a reader sees them.
pub open spec fn rows_model<S>(rows: Seq<Vec<StyledText<S>>>) -> Seq<Seq<(Seq<char>, S)>> {
    rows.map_values(|r: Vec<StyledText<S>>| row_model(r@))
}

/// Where wrapping a line stands: the rows finished so far, the row being
/// filled, and how many characters that row already holds.
pub struct WrapState<S> {
    pub rows: Seq<Seq<(Seq<char>, S)>>,
    pub current: Seq<(Seq<char>, S)>,
    pub used: nat,
}

impl<S> WrapState<S> {
    /// Nothing wrapped yet.
    pub open spec fn start() -> WrapState<S> {
        WrapState { rows: Seq::empty(), current: Seq::empty(), used: 0 }
    }

    /// The row being filled is finished and an empty one begins.
    pub open spec fn broken(self) -> WrapState<S> {
        WrapState { rows: self.rows.push(self.current), current: Seq::empty(), used: 0 }
    }

    /// `text` in `style` is added to the row being filled.
    pub open spec fn appended(self, text: Seq<char>, style: S) -> WrapState<S> {
        WrapState { current: self.current.push((text, style)), used: self.used + text.len(), ..self }
    }
}

/// Places `word` in rows of `limit` characters: as much of it as fits goes on
/// the row being filled, and whatever is left starts a new row.
pub open spec fn place_word<S>(st: WrapState<S>, word: Seq<char>, style: S, limit: nat) -> WrapState<
    S,
>
    decreases word.len(), (if st.used >= limit {
        1int
    } else {
        0int
    }),
{
    if limit == 0 || word.len() == 0 {
        st
    } else if st.used >= limit {
        place_word(st.broken(), word, style, limit)
    } else {
        let take: nat = if word.len() <= limit - st.used {
            word.len()
        } else {
            (limit - st.used) as nat
        };
        let placed = st.appended(word.take(take as int), style);
        if take < word.len() {
            place_word(placed.broken(), word.skip(take as int), style, limit)
        } else {
            placed
        }
    }
}

/// Places the words of a span in order. Between two words goes a space, in
/// the span's style, when the row being filled has text and room for it.
pub open spec fn place_words<S>(st: WrapState<S>, words: Seq<Seq<char>>, style: S, limit: nat) -> WrapState<
    S,
>
    decreases words.len(),
{
    if words.len() == 0 {
        st
    } else {
        let before = place_words(st, words.drop_last(), style, limit);
        let spaced = if words.len() > 1 && before.used < limit && before.current.len() > 0 {
            before.appended(seq![' '], style)
        } else {
            before
        };
        place_word(spaced, words.last(), style, limit)
    }
}

/// Places the spans of a line in order, each split into words at its spaces.
pub open spec fn place_spans<S>(st: WrapState<S>, spans: Seq<(Seq<char>, S)>, limit: nat) -> WrapState<
    S,
>
    decreases spans.len(),
{
    if spans.len() == 0 {
        st
    } else {
        let span = spans.last();
        place_words(place_spans(st, spans.drop_last(), limit), pieces(span.0, ' '), span.1, limit)
    }
}

/// The rows that one line wraps into; the last row is always kept, even
/// when empty.
pub open spec fn wrapped_line<S>(line: Seq<(Seq<char>, S)>, limit: nat) -> Seq<
    Seq<(Seq<char>, S)>,
> {
    let end = place_spans(WrapState::start(), line, limit);
    end.rows.push(end.current)
}

/// The rows of all the lines, in order.
pub open spec fn wrapped_lines<S>(lines: Seq<Seq<(Seq<char>, S)>>, limit: nat) -> Seq<
    Seq<(Seq<char>, S)>,
>
    decreases lines.len(),
{
    if lines.len() == 0 {
        Seq::empty()
    } else {
        wrapped_lines(lines.drop_last(), limit) + wrapped_line(lines.last(), limit)
    }
}

/// What wrapping to `width` gives; a zero width leaves the lines as they are.
pub open spec fn wrapped<S>(lines: Seq<Seq<(Seq<char>, S)>>, width: nat) -> Seq<
    Seq<(Seq<char>, S)>,
> {
    if width == 0 {
        lines
    } else {
        wrapped_lines(lines, width)
    }
}

/// The wrapping state that the exec variables stand for.
pub open spec fn state_of<S>(
    rows: Seq<Vec<StyledText<S>>>,
    current: Seq<StyledText<S>>,
    used: usize,
) -> WrapState<S> {
    WrapState { rows: rows_model(rows), current: row_model(current), used: used as nat }
}

fn finish_row<S>(rows: &mut Vec<Vec<StyledText<S>>>, current: &mut Vec<StyledText<S>>)
    ensures
        state_of(final(rows)@, final(current)@, 0) == state_of(old(rows)@, old(current)@, 0).broken(),
{
    let mut row: Vec<StyledText<S>> = Vec::new();
    std::mem::swap(&mut row, current);
    let ghost before = rows@;
    rows.push(row);
    proof {
        assert(rows_model(rows@) =~= rows_model(before).push(row_model(row@)));
        assert(row_model(current@) =~= Seq::<(Seq<char>, S)>::empty());
    }
}

fn add_text<S: Copy>(current: &mut Vec<StyledText<S>>, text: String, style: S)
    ensures
        row_model(final(current)@) == row_model(old(current)@).push((text@, style)),
{
    let ghost before = current@;
    current.push(StyledText { text, style });
    proof {
        assert(row_model(current@) =~= row_model(before).push((text@, style)));
    }
}

fn place_word_exec<S: Copy>(
    rows: &mut Vec<Vec<StyledText<S>>>,
    current: &mut Vec<StyledText<S>>,
    used: &mut usize,
    text: &str,
    start: usize,
    end: usize,
    style: S,
    limit: usize,
)
    requires
        start <= end <= text@.len(),
        0 < limit,
        *old(used) <= limit,
    ensures
        *final(used) <= limit,
        state_of(final(rows)@, final(current)@, *final(used)) == place_word(
            state_of(old(rows)@, old(current)@, *old(used)),
            text@.subrange(start as int, end as int),
            style,
            limit as nat,
        ),
{
    let ghost target = place_word(
        state_of(rows@, current@, *used),
        text@.subrange(start as int, end as int),
        style,
        limit as nat,
    );
    let mut pos = start;
    while pos < end
        invariant
            start <= pos <= end <= text@.len(),
            0 < limit,
            *used <= limit,
            place_word(
                state_of(rows@, current@, *used),
                text@.subrange(pos as int, end as int),
                style,
                limit as nat,
            ) == target,
        decreases end - pos, (if *used >= limit {
            1int
        } else {
            0int
        }),
    {
        let ghost word = text@.subrange(pos as int, end as int);
        if *used >= limit {
            finish_row(rows, current);
            *used = 0;
        } else {
            let remaining = limit - *used;
            let take = if end - pos <= remaining {
                end - pos
            } else {
                remaining
            };
            let chunk = text.substring_char(pos, pos + take).to_owned();
            proof {
                assert(chunk@ =~= word.take(take as int));
            }
            add_text(current, chunk, style);
            *used = *used + take;
            pos = pos + take;
            proof {
                assert(text@.subrange(pos as int, end as int) =~= word.skip(take as int));
            }
            if pos < end {
                finish_row(rows, current);
                *used = 0;
            }
        }
    }
    proof {
        assert(text@.subrange(pos as int, end as int).len() == 0);
    }
}


fn space() -> (s: String)
    ensures
        s@ == seq![' '],
{
    let mut s = String::new();
    crate::text::string_push(&mut s, ' ');
    s
}

fn place_span_exec<S: Copy>(
    rows: &mut Vec<Vec<StyledText<S>>>,
    current: &mut Vec<StyledText<S>>,
    used: &mut usize,
    text: &str,
    style: S,
    limit: usize,
)
    requires
        0 < limit,
        *old(used) <= limit,
    ensures
        *final(used) <= limit,
        state_of(final(rows)@, final(current)@, *final(used)) == place_words(
            state_of(old(rows)@, old(current)@, *old(used)),
            pieces(text@, ' '),
            style,
            limit as nat,
        ),
{
    let ghost init = state_of(rows@, current@, *used);
    let n = text.unicode_len();
    let ghost mut done: Seq<Seq<char>> = Seq::empty();
    let mut start: usize = 0;
    let mut j: usize = 0;
    proof {
        assert(text@.take(0) =~= Seq::<char>::empty());
        assert(text@.subrange(0, 0) =~= Seq::<char>::empty());
    }
    while j < n
        invariant
            n == text@.len(),
            start <= j <= n,
            0 < limit,
            *used <= limit,
            pieces(text@.take(j as int), ' ') == done.push(text@.subrange(start as int, j as int)),
            (start > 0) == (done.len() > 0),
            state_of(rows@, current@, *used) == place_words(init, done, style, limit as nat),
        decreases n - j,
    {
        let c = text.get_char(j);
        let ghost word = text@.subrange(start as int, j as int);
        proof {
            assert(text@.take(j + 1).drop_last() =~= text@.take(j as int));
            assert(text@.take(j + 1).last() == c);
        }
        if c == ' ' {
            proof {
                assert(done.push(word).drop_last() =~= done);
            }
            if start > 0 && *used < limit && current.len() > 0 {
                add_text(current, space(), style);
                *used = *used + 1;
            }
            place_word_exec(rows, current, used, text, start, j, style, limit);
            proof {
                done = done.push(word);
                assert(text@.subrange(j + 1, j + 1) =~= Seq::<char>::empty());
            }
            start = j + 1;
        } else {
            proof {
                assert(text@.subrange(start as int, j + 1) =~= word.push(c));
            }
        }
        j = j + 1;
    }
    let ghost word = text@.subrange(start as int, n as int);
    proof {
        assert(text@.take(n as int) =~= text@);
        assert(done.push(word).drop_last() =~= done);
    }
    if start > 0 && *used < limit && current.len() > 0 {
        add_text(current, space(), style);
        *used = *used + 1;
    }
    place_word_exec(rows, current, used, text, start, n, style, limit);
}


fn wrap_line<S: Copy>(line: &Vec<StyledText<S>>, limit: usize) -> (rows: Vec<Vec<StyledText<S>>>)
    requires
        0 < limit,
    ensures
        rows_model(rows@) == wrapped_line(row_model(line@), limit as nat),
{
    let ghost spans = row_model(line@);
    let mut rows: Vec<Vec<StyledText<S>>> = Vec::new();
    let mut current: Vec<StyledText<S>> = Vec::new();
    let mut used: usize = 0;
    let mut i: usize = 0;
    proof {
        assert(rows_model(rows@) =~= Seq::<Seq<(Seq<char>, S)>>::empty());
        assert(row_model(current@) =~= Seq::<(Seq<char>, S)>::empty());
        assert(spans.take(0) =~= Seq::<(Seq<char>, S)>::empty());
    }
    while i < line.len()
        invariant
            i <= line.len(),
            spans == row_model(line@),
            0 < limit,
            used <= limit,
            state_of(rows@, current@, used) == place_spans(
                WrapState::start(),
                spans.take(i as int),
                limit as nat,
            ),
        decreases line.len() - i,
    {
        proof {
            assert(spans.take(i + 1).drop_last() =~= spans.take(i as int));
            assert(spans.take(i + 1).last() == line@[i as int]@);
        }
        place_span_exec(
            &mut rows,
            &mut current,
            &mut used,
            line[i].text.as_str(),
            line[i].style,
            limit,
        );
        i = i + 1;
    }
    proof {
        assert(spans.take(line.len() as int) =~= spans);
    }
    finish_row(&mut rows, &mut current);
    rows
}

fn copy_row<S: Copy>(row: &Vec<StyledText<S>>) -> (copy: Vec<StyledText<S>>)
    ensures
        row_model(copy@) == row_model(row@),
{
    let mut copy: Vec<StyledText<S>> = Vec::new();
    let mut i: usize = 0;
    while i < row.len()
        invariant
            i <= row.len(),
            row_model(copy@) == row_model(row@).take(i as int),
        decreases row.len() - i,
    {
        let ghost before = copy@;
        let piece = StyledText { text: row[i].text.clone(), style: row[i].style };
        assert(piece@ == row@[i as int]@);
        copy.push(piece);
        proof {
            assert(row_model(copy@) =~= row_model(before).push(piece@));
            assert(row_model(copy@) =~= row_model(row@).take(i + 1));
        }
        i = i + 1;
    }
    proof {
        assert(row_model(row@).take(row.len() as int) =~= row_model(row@));
    }
    copy
}

/// Greedily word-wraps styled lines to `width` characters, keeping each
/// piece's style and hard-splitting words that cannot fit on a row of their
/// own. A zero width leaves the lines as they are.
pub fn wrap_lines<S: Copy>(lines: &Vec<Vec<StyledText<S>>>, width: u16) -> (rows: Vec<
    Vec<StyledText<S>>,
>)
    ensures
        rows_model(rows@) == wrapped(rows_model(lines@), width as nat),
{
    let ghost model = rows_model(lines@);
    let mut rows: Vec<Vec<StyledText<S>>> = Vec::new();
    let mut i: usize = 0;
    while i < lines.len()
        invariant
            i <= lines.len(),
            model == rows_model(lines@),
            rows_model(rows@) == (if width == 0 {
                model.take(i as int)
            } else {
                wrapped_lines(model.take(i as int), width as nat)
            }),
        decreases lines.len() - i,
    {
        let ghost before = rows@;
        proof {
            assert(model.take(i + 1).drop_last() =~= model.take(i as int));
            assert(model.take(i + 1).last() == row_model(lines@[i as int]@));
        }
        if width == 0 {
            let copy = copy_row(&lines[i]);
            rows.push(copy);
            proof {
                assert(rows_model(rows@) =~= model.take(i + 1));
            }
        } else {
            let mut more = wrap_line(&lines[i], width as usize);
            let ghost added = more@;
            rows.append(&mut more);
            proof {
                assert(rows_model(rows@) =~= rows_model(before) + rows_model(added));
            }
        }
        i = i + 1;
    }
    proof {
        assert(model.take(lines.len() as int) =~= model);
    }
    rows
}


/// Number of characters on a row.
pub open spec fn row_chars<S>(row: Seq<(Seq<char>, S)>) -> nat
    decreases row.len(),
{
    if row.len() == 0 {
        0
    } else {
        row_chars(row.drop_last()) + row.last().0.len()
    }
}

/// Every finished row, and the row being filled, fit in `limit` characters,
/// and `used` counts the characters of the row being filled.
pub open spec fn fits<S>(st: WrapState<S>, limit: nat) -> bool {
    &&& st.used == row_chars(st.current)
    &&& st.used <= limit
    &&& forall|i: int| 0 <= i < st.rows.len() ==> row_chars(#[trigger] st.rows[i]) <= limit
}

proof fn lemma_broken_fits<S>(st: WrapState<S>, limit: nat)
    requires
        fits(st, limit),
    ensures
        fits(st.broken(), limit),
{
    let b = st.broken();
    assert(row_chars(b.current) == 0);
    assert forall|i: int| 0 <= i < b.rows.len() implies row_chars(#[trigger] b.rows[i]) <= limit by {
        if i < st.rows.len() {
            assert(b.rows[i] == st.rows[i]);
        }
    }
}

proof fn lemma_appended_fits<S>(st: WrapState<S>, text: Seq<char>, style: S, limit: nat)
    requires
        fits(st, limit),
        st.used + text.len() <= limit,
    ensures
        fits(st.appended(text, style), limit),
{
    let a = st.appended(text, style);
    assert(a.current.drop_last() =~= st.current);
}

proof fn lemma_place_word_fits<S>(st: WrapState<S>, word: Seq<char>, style: S, limit: nat)
    requires
        fits(st, limit),
    ensures
        fits(place_word(st, word, style, limit), limit),
    decreases word.len(), (if st.used >= limit {
        1int
    } else {
        0int
    }),
{
    if limit == 0 || word.len() == 0 {
    } else if st.used >= limit {
        lemma_broken_fits(st, limit);
        lemma_place_word_fits(st.broken(), word, style, limit);
    } else {
        let take: nat = if word.len() <= limit - st.used {
            word.len()
        } else {
            (limit - st.used) as nat
        };
        lemma_appended_fits(st, word.take(take as int), style, limit);
        let placed = st.appended(word.take(take as int), style);
        if take < word.len() {
            lemma_broken_fits(placed, limit);
            lemma_place_word_fits(placed.broken(), word.skip(take as int), style, limit);
        }
    }
}

proof fn lemma_place_words_fits<S>(st: WrapState<S>, words: Seq<Seq<char>>, style: S, limit: nat)
    requires
        fits(st, limit),
    ensures
        fits(place_words(st, words, style, limit), limit),
    decreases words.len(),
{
    if words.len() > 0 {
        lemma_place_words_fits(st, words.drop_last(), style, limit);
        let before = place_words(st, words.drop_last(), style, limit);
        if words.len() > 1 && before.used < limit && before.current.len() > 0 {
            lemma_appended_fits(before, seq![' '], style, limit);
            lemma_place_word_fits(before.appended(seq![' '], style), words.last(), style, limit);
        } else {
            lemma_place_word_fits(before, words.last(), style, limit);
        }
    }
}

proof fn lemma_place_spans_fits<S>(st: WrapState<S>, spans: Seq<(Seq<char>, S)>, limit: nat)
    requires
        fits(st, limit),
    ensures
        fits(place_spans(st, spans, limit), limit),
    decreases spans.len(),
{
    if spans.len() > 0 {
        lemma_place_spans_fits(st, spans.drop_last(), limit);
        lemma_place_words_fits(
            place_spans(st, spans.drop_last(), limit),
            pieces(spans.last().0, ' '),
            spans.last().1,
            limit,
        );
    }
}

/// Wrapping to a positive width gives rows of at most that many characters,
/// and at least one row per line.
pub proof fn law_wrapped_rows_fit<S>(lines: Seq<Seq<(Seq<char>, S)>>, width: nat)
    requires
        width > 0,
    ensures
        forall|i: int|
            0 <= i < wrapped(lines, width).len() ==> row_chars(#[trigger] wrapped(lines, width)[i])
                <= width,
        wrapped(lines, width).len() >= lines.len(),
    decreases lines.len(),
{
    if lines.len() > 0 {
        law_wrapped_rows_fit(lines.drop_last(), width);
        let start = WrapState::<S>::start();
        assert(row_chars(start.current) == 0);
        lemma_place_spans_fits(start, lines.last(), width);
        let end = place_spans(start, lines.last(), width);
        let line_rows = wrapped_line(lines.last(), width);
        let before = wrapped(lines.drop_last(), width);
        assert forall|i: int| 0 <= i < wrapped(lines, width).len() implies row_chars(
            #[trigger] wrapped(lines, width)[i],
        ) <= width by {
            if i >= before.len() {
                let k = i - before.len();
                if k < end.rows.len() {
                    assert(line_rows[k] == end.rows[k]);
                }
            }
        }
    }
}

/// A blank line wraps into one empty row.
pub proof fn law_blank_line_keeps_its_row<S>(width: nat)
    ensures
        wrapped_line(Seq::<(Seq<char>, S)>::empty(), width) == seq![Seq::<(Seq<char>, S)>::empty()],
{
    assert(wrapped_line(Seq::<(Seq<char>, S)>::empty(), width) =~= seq![Seq::<(Seq<char>, S)>::empty()]);
}

/// The characters of `text` that are not spaces, each with `style`.
pub open spec fn visible<S>(text: Seq<char>, style: S) -> Seq<(char, S)>
    decreases text.len(),
{
    if text.len() == 0 {
        Seq::empty()
    } else {
        visible(text.drop_last(), style) + (if text.last() == ' ' {
            Seq::empty()
        } else {
            seq![(text.last(), style)]
        })
    }
}

/// The characters of a row that are not spaces, in order, with their styles.
pub open spec fn row_visible<S>(row: Seq<(Seq<char>, S)>) -> Seq<(char, S)>
    decreases row.len(),
{
    if row.len() == 0 {
        Seq::empty()
    } else {
        row_visible(row.drop_last()) + visible(row.last().0, row.last().1)
    }
}

/// The characters of rows that are not spaces, in order, with their styles.
pub open spec fn rows_visible<S>(rows: Seq<Seq<(Seq<char>, S)>>) -> Seq<(char, S)>
    decreases rows.len(),
{
    if rows.len() == 0 {
        Seq::empty()
    } else {
        rows_visible(rows.drop_last()) + row_visible(rows.last())
    }
}

/// The characters of the words that are not spaces, in order, in `style`.
pub open spec fn words_visible<S>(words: Seq<Seq<char>>, style: S) -> Seq<(char, S)>
    decreases words.len(),
{
    if words.len() == 0 {
        Seq::empty()
    } else {
        words_visible(words.drop_last(), style) + visible(words.last(), style)
    }
}

/// Number of characters of words put back together with one space between
/// each two.
pub open spec fn words_len(words: Seq<Seq<char>>) -> nat
    decreases words.len(),
{
    if words.len() == 0 {
        0
    } else if words.len() == 1 {
        words[0].len()
    } else {
        words_len(words.drop_last()) + 1 + words.last().len()
    }
}

/// What has been placed so far, rows and row being filled together.
pub open spec fn emitted<S>(st: WrapState<S>) -> Seq<(char, S)> {
    rows_visible(st.rows) + row_visible(st.current)
}

proof fn lemma_visible_concat<S>(a: Seq<char>, b: Seq<char>, style: S)
    ensures
        visible(a + b, style) == visible(a, style) + visible(b, style),
    decreases b.len(),
{
    if b.len() == 0 {
        assert(a + b =~= a);
        assert(visible(a, style) + visible(b, style) =~= visible(a, style));
    } else {
        lemma_visible_concat(a, b.drop_last(), style);
        assert((a + b).drop_last() =~= a + b.drop_last());
        assert((a + b).last() == b.last());
        assert(visible(a + b, style) =~= visible(a, style) + visible(b, style));
    }
}

proof fn lemma_rows_visible_concat<S>(a: Seq<Seq<(Seq<char>, S)>>, b: Seq<Seq<(Seq<char>, S)>>)
    ensures
        rows_visible(a + b) == rows_visible(a) + rows_visible(b),
    decreases b.len(),
{
    if b.len() == 0 {
        assert(a + b =~= a);
        assert(rows_visible(a) + rows_visible(b) =~= rows_visible(a));
    } else {
        lemma_rows_visible_concat(a, b.drop_last());
        assert((a + b).drop_last() =~= a + b.drop_last());
        assert((a + b).last() == b.last());
        assert(rows_visible(a + b) =~= rows_visible(a) + rows_visible(b));
    }
}

proof fn lemma_broken_emitted<S>(st: WrapState<S>)
    ensures
        emitted(st.broken()) == emitted(st),
{
    let b = st.broken();
    assert(b.rows.drop_last() =~= st.rows);
    assert(row_visible(b.current) =~= Seq::<(char, S)>::empty());
    assert(emitted(b) =~= emitted(st));
}

proof fn lemma_appended_emitted<S>(st: WrapState<S>, text: Seq<char>, style: S)
    ensures
        emitted(st.appended(text, style)) == emitted(st) + visible(text, style),
{
    let a = st.appended(text, style);
    assert(a.current.drop_last() =~= st.current);
    assert(emitted(a) =~= emitted(st) + visible(text, style));
}

proof fn lemma_place_word_emitted<S>(st: WrapState<S>, word: Seq<char>, style: S, limit: nat)
    requires
        limit > 0,
    ensures
        emitted(place_word(st, word, style, limit)) == emitted(st) + visible(word, style),
    decreases word.len(), (if st.used >= limit {
        1int
    } else {
        0int
    }),
{
    if word.len() == 0 {
        assert(emitted(st) + visible(word, style) =~= emitted(st));
    } else if st.used >= limit {
        lemma_broken_emitted(st);
        lemma_place_word_emitted(st.broken(), word, style, limit);
    } else {
        let take: nat = if word.len() <= limit - st.used {
            word.len()
        } else {
            (limit - st.used) as nat
        };
        let head = word.take(take as int);
        let tail = word.skip(take as int);
        lemma_appended_emitted(st, head, style);
        let placed = st.appended(head, style);
        assert(word =~= head + tail);
        lemma_visible_concat(head, tail, style);
        if take < word.len() {
            lemma_broken_emitted(placed);
            lemma_place_word_emitted(placed.broken(), tail, style, limit);
            assert(emitted(st) + visible(head, style) + visible(tail, style) =~= emitted(st)
                + visible(word, style));
        } else {
            assert(tail.len() == 0);
            assert(visible(tail, style) =~= Seq::<(char, S)>::empty());
            assert(head =~= word);
        }
    }
}

proof fn lemma_place_words_emitted<S>(st: WrapState<S>, words: Seq<Seq<char>>, style: S, limit: nat)
    requires
        limit > 0,
    ensures
        emitted(place_words(st, words, style, limit)) == emitted(st) + words_visible(words, style),
    decreases words.len(),
{
    if words.len() == 0 {
        assert(emitted(st) + words_visible(words, style) =~= emitted(st));
    } else {
        lemma_place_words_emitted(st, words.drop_last(), style, limit);
        let before = place_words(st, words.drop_last(), style, limit);
        if words.len() > 1 && before.used < limit && before.current.len() > 0 {
            lemma_appended_emitted(before, seq![' '], style);
            let space = seq![' '];
            assert(space.drop_last() =~= Seq::<char>::empty());
            assert(space.last() == ' ');
            assert(visible(Seq::<char>::empty(), style) =~= Seq::<(char, S)>::empty());
            assert(visible(space, style) =~= Seq::<(char, S)>::empty());
            lemma_place_word_emitted(before.appended(seq![' '], style), words.last(), style, limit);
        } else {
            lemma_place_word_emitted(before, words.last(), style, limit);
        }
        assert(emitted(place_words(st, words, style, limit)) =~= emitted(st) + words_visible(
            words,
            style,
        ));
    }
}

proof fn lemma_pieces_nonempty(t: Seq<char>, separator: char)
    ensures
        pieces(t, separator).len() >= 1,
    decreases t.len(),
{
    if t.len() > 0 {
        lemma_pieces_nonempty(t.drop_last(), separator);
    }
}

proof fn lemma_pieces_visible<S>(t: Seq<char>, style: S)
    ensures
        words_visible(pieces(t, ' '), style) == visible(t, style),
    decreases t.len(),
{
    if t.len() == 0 {
        let p = pieces(t, ' ');
        assert(p == seq![Seq::<char>::empty()]);
        assert(p.drop_last() =~= Seq::<Seq<char>>::empty());
        assert(p.last() == Seq::<char>::empty());
        assert(words_visible(Seq::<Seq<char>>::empty(), style) =~= Seq::<(char, S)>::empty());
        assert(visible(Seq::<char>::empty(), style) =~= Seq::<(char, S)>::empty());
        assert(visible(p.last(), style) =~= Seq::<(char, S)>::empty());
        assert(words_visible(p, style) =~= visible(t, style));
    } else {
        let d = t.drop_last();
        let c = t.last();
        lemma_pieces_visible(d, style);
        lemma_pieces_nonempty(d, ' ');
        let p = pieces(d, ' ');
        let q = pieces(t, ' ');
        if c == ' ' {
            assert(q == p.push(Seq::<char>::empty()));
            assert(q.drop_last() =~= p);
            assert(visible(Seq::<char>::empty(), style) =~= Seq::<(char, S)>::empty());
            assert(words_visible(q, style) =~= visible(t, style));
        } else {
            let x = p.last().push(c);
            assert(q == p.update(p.len() - 1, x));
            assert(q.drop_last() =~= p.drop_last());
            assert(q.last() == x);
            assert(x.drop_last() =~= p.last());
            assert(words_visible(q, style) =~= visible(t, style));
        }
    }
}

proof fn lemma_place_spans_emitted<S>(st: WrapState<S>, spans: Seq<(Seq<char>, S)>, limit: nat)
    requires
        limit > 0,
    ensures
        emitted(place_spans(st, spans, limit)) == emitted(st) + row_visible(spans),
    decreases spans.len(),
{
    if spans.len() == 0 {
        assert(emitted(st) + row_visible(spans) =~= emitted(st));
    } else {
        lemma_place_spans_emitted(st, spans.drop_last(), limit);
        let span = spans.last();
        lemma_place_words_emitted(
            place_spans(st, spans.drop_last(), limit),
            pieces(span.0, ' '),
            span.1,
            limit,
        );
        lemma_pieces_visible(span.0, span.1);
        assert(emitted(place_spans(st, spans, limit)) =~= emitted(st) + row_visible(spans));
    }
}

/// Wrapping drops nothing but spaces and reorders nothing: the characters
/// that are not spaces come out in order, each with its style.
pub proof fn law_wrapping_keeps_visible_text<S>(lines: Seq<Seq<(Seq<char>, S)>>, width: nat)
    ensures
        rows_visible(wrapped(lines, width)) == rows_visible(lines),
        width > 0 ==> forall|i: int|
            0 <= i < lines.len() ==> rows_visible(wrapped_line(#[trigger] lines[i], width))
                == row_visible(lines[i]),
    decreases lines.len(),
{
    if width > 0 {
        assert forall|i: int| 0 <= i < lines.len() implies rows_visible(
            wrapped_line(#[trigger] lines[i], width),
        ) == row_visible(lines[i]) by {
            lemma_wrapped_line_visible(lines[i], width);
        }
        if lines.len() > 0 {
            law_wrapping_keeps_visible_text(lines.drop_last(), width);
            lemma_wrapped_line_visible(lines.last(), width);
            lemma_rows_visible_concat(
                wrapped_lines(lines.drop_last(), width),
                wrapped_line(lines.last(), width),
            );
        }
    }
}

proof fn lemma_wrapped_line_visible<S>(line: Seq<(Seq<char>, S)>, width: nat)
    requires
        width > 0,
    ensures
        rows_visible(wrapped_line(line, width)) == row_visible(line),
{
    let start = WrapState::<S>::start();
    lemma_place_spans_emitted(start, line, width);
    let end = place_spans(start, line, width);
    let rows = end.rows.push(end.current);
    assert(rows.drop_last() =~= end.rows);
    assert(emitted(start) =~= Seq::<(char, S)>::empty());
    assert(rows_visible(rows) =~= row_visible(line));
}

proof fn lemma_pieces_len(t: Seq<char>, separator: char)
    ensures
        words_len(pieces(t, separator)) == t.len(),
    decreases t.len(),
{
    if t.len() > 0 {
        let d = t.drop_last();
        lemma_pieces_len(d, separator);
        lemma_pieces_nonempty(d, separator);
        let p = pieces(d, separator);
        let q = pieces(t, separator);
        if t.last() == separator {
            assert(q.drop_last() =~= p);
        } else {
            let x = p.last().push(t.last());
            assert(q == p.update(p.len() - 1, x));
            assert(q.drop_last() =~= p.drop_last());
            if p.len() == 1 {
                assert(q[0] == x);
            }
        }
    }
}

proof fn lemma_place_word_unbroken<S>(st: WrapState<S>, word: Seq<char>, style: S, limit: nat)
    requires
        limit > 0,
        st.used + word.len() <= limit,
    ensures
        place_word(st, word, style, limit).rows == st.rows,
        place_word(st, word, style, limit).used == st.used + word.len(),
{
    if word.len() > 0 {
        assert(word.take(word.len() as int) =~= word);
    }
}

proof fn lemma_place_words_unbroken<S>(st: WrapState<S>, words: Seq<Seq<char>>, style: S, limit: nat)
    requires
        limit > 0,
        st.used + words_len(words) <= limit,
    ensures
        place_words(st, words, style, limit).rows == st.rows,
        place_words(st, words, style, limit).used <= st.used + words_len(words),
    decreases words.len(),
{
    if words.len() == 1 {
        assert(words.drop_last().len() == 0);
        lemma_place_word_unbroken(st, words.last(), style, limit);
    } else if words.len() > 1 {
        lemma_place_words_unbroken(st, words.drop_last(), style, limit);
        let before = place_words(st, words.drop_last(), style, limit);
        if before.used < limit && before.current.len() > 0 {
            lemma_place_word_unbroken(before.appended(seq![' '], style), words.last(), style, limit);
        } else {
            lemma_place_word_unbroken(before, words.last(), style, limit);
        }
    }
}

proof fn lemma_place_spans_unbroken<S>(st: WrapState<S>, spans: Seq<(Seq<char>, S)>, limit: nat)
    requires
        limit > 0,
        st.used + row_chars(spans) <= limit,
    ensures
        place_spans(st, spans, limit).rows == st.rows,
        place_spans(st, spans, limit).used <= st.used + row_chars(spans),
    decreases spans.len(),
{
    if spans.len() > 0 {
        lemma_place_spans_unbroken(st, spans.drop_last(), limit);
        lemma_pieces_len(spans.last().0, ' ');
        lemma_place_words_unbroken(
            place_spans(st, spans.drop_last(), limit),
            pieces(spans.last().0, ' '),
            spans.last().1,
            limit,
        );
    }
}

/// A line that fits in the width stays one row.
pub proof fn law_short_line_stays_one_row<S>(line: Seq<(Seq<char>, S)>, width: nat)
    requires
        row_chars(line) <= width,
    ensures
        wrapped(seq![line], width).len() == 1,
{
    if width > 0 {
        let start = WrapState::<S>::start();
        lemma_place_spans_unbroken(start, line, width);
        let one = seq![line];
        assert(one.drop_last() =~= Seq::<Seq<(Seq<char>, S)>>::empty());
        assert(one.last() == line);
        assert(wrapped_lines(one.drop_last(), width) =~= Seq::<Seq<(Seq<char>, S)>>::empty());
        assert(wrapped_lines(one, width) =~= wrapped_line(line, width));
        assert(wrapped_line(line, width).len() == 1);
    }
}

} // verus!
