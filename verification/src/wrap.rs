//! Wrapping of text into lines of bounded width.

use vstd::prelude::*;
use crate::chars::{chars_of, string_of};

verus! {

/// The texts held by a list of character vectors.
pub open spec fn views(items: Seq<Vec<char>>) -> Seq<Seq<char>> {
    Seq::new(items.len(), |i: int| items[i]@)
}

/// The parts of a text between its spaces. A text without a space is one
/// word; two spaces in a row hold an empty word between them.
pub open spec fn words(text: Seq<char>) -> Seq<Seq<char>>
    decreases text.len(),
{
    if text.len() == 0 {
        seq![Seq::empty()]
    } else {
        let before = words(text.drop_last());
        if text.last() == ' ' {
            before.push(Seq::empty())
        } else {
            before.drop_last().push(before.last().push(text.last()))
        }
    }
}

/// A word cut into chunks of at most `n` characters. Every chunk but the
/// last is `n` characters of the word with a hyphen behind them. The empty
/// word has no chunk.
pub open spec fn chunked(word: Seq<char>, n: nat) -> Seq<Seq<char>>
    recommends
        n >= 1,
    decreases word.len(),
{
    if word.len() == 0 {
        Seq::empty()
    } else if word.len() <= n || n == 0 {
        seq![word]
    } else {
        seq![word.take(n as int).push('-')] + chunked(word.skip(n as int), n)
    }
}

/// The chunks of all words, in order.
pub open spec fn pieces(ws: Seq<Seq<char>>, n: nat) -> Seq<Seq<char>>
    decreases ws.len(),
{
    if ws.len() == 0 {
        Seq::empty()
    } else {
        pieces(ws.drop_last(), n) + chunked(ws.last(), n)
    }
}

/// The length a line would have with one more piece on it.
pub open spec fn length_with(line: Seq<char>, piece: Seq<char>) -> nat {
    if line.len() == 0 {
        piece.len()
    } else {
        line.len() + 1 + piece.len()
    }
}

/// Lines under construction: the closed lines and the line being filled.
pub struct Packing {
    pub closed: Seq<Seq<char>>,
    pub open: Seq<char>,
}

/// Puts one piece on the lines: where the open line would reach the width
/// with it, that line is closed first. The piece follows the open line's
/// text after one space, or starts the line.
pub open spec fn place(state: Packing, piece: Seq<char>, width: nat) -> Packing {
    let fresh = length_with(state.open, piece) >= width;
    let closed = if fresh {
        state.closed.push(state.open)
    } else {
        state.closed
    };
    let open = if fresh || state.open.len() == 0 {
        piece
    } else {
        state.open.push(' ') + piece
    };
    Packing { closed, open }
}

/// The lines after all pieces were placed, one after the other.
pub open spec fn packed(ps: Seq<Seq<char>>, width: nat) -> Packing
    decreases ps.len(),
{
    if ps.len() == 0 {
        Packing { closed: Seq::empty(), open: Seq::empty() }
    } else {
        place(packed(ps.drop_last(), width), ps.last(), width)
    }
}

/// The lines that a text is wrapped into.
pub open spec fn wrapped_lines(text: Seq<char>, width: nat) -> Seq<Seq<char>> {
    let state = packed(pieces(words(text), (width - 1) as nat), width);
    state.closed.push(state.open)
}

/// Texts in a row with `sep` between each two.
pub open spec fn joined(items: Seq<Seq<char>>, sep: Seq<char>) -> Seq<char>
    decreases items.len(),
{
    if items.len() == 0 {
        Seq::empty()
    } else if items.len() == 1 {
        items[0]
    } else {
        joined(items.drop_last(), sep) + sep + items.last()
    }
}

/// A text wrapped to a width: its lines with a line break between each two.
pub open spec fn wrapped(text: Seq<char>, width: nat) -> Seq<char> {
    joined(wrapped_lines(text, width), seq!['\n'])
}

/// The word that chunks were cut from: the chunks in a row, each but the
/// last without the hyphen at its end.
pub open spec fn unhyphenated(chunks: Seq<Seq<char>>) -> Seq<char>
    decreases chunks.len(),
{
    if chunks.len() == 0 {
        Seq::empty()
    } else if chunks.len() == 1 {
        chunks[0]
    } else {
        chunks[0].drop_last() + unhyphenated(chunks.skip(1))
    }
}

/// Cutting a word into chunks loses no character: the chunks without their
/// hyphens give the word back.
pub proof fn lemma_chunks_rebuild_word(word: Seq<char>, n: nat)
    requires
        n >= 1,
    ensures
        unhyphenated(chunked(word, n)) == word,
    decreases word.len(),
{
    if word.len() == 0 {
    } else if word.len() <= n {
    } else {
        let rest = chunked(word.skip(n as int), n);
        let all = chunked(word, n);
        lemma_chunks_rebuild_word(word.skip(n as int), n);
        assert(rest.len() >= 1);
        assert(all.skip(1) =~= rest);
        assert(all[0].drop_last() =~= word.take(n as int));
        assert(word.take(n as int) + word.skip(n as int) =~= word);
    }
}

/// Every chunk holds at least one character and at most `n` and a hyphen;
/// a word of at most `n` characters is its own only chunk.
pub proof fn lemma_chunk_lengths(word: Seq<char>, n: nat, i: int)
    requires
        n >= 1,
        0 <= i < chunked(word, n).len(),
    ensures
        1 <= chunked(word, n)[i].len() <= n + 1,
        word.len() <= n ==> chunked(word, n)[i].len() <= n,
    decreases word.len(),
{
    if word.len() > n && i > 0 {
        lemma_chunk_lengths(word.skip(n as int), n, i - 1);
    }
}

/// What holds of the pieces of a list of words: each has between one and
/// `n + 1` characters, and at most `n` where no word is longer than that.
pub proof fn lemma_piece_lengths(ws: Seq<Seq<char>>, n: nat, i: int)
    requires
        n >= 1,
        0 <= i < pieces(ws, n).len(),
    ensures
        1 <= pieces(ws, n)[i].len() <= n + 1,
        (forall|k: int| 0 <= k < ws.len() ==> (#[trigger] ws[k]).len() <= n) ==> pieces(ws, n)[i].len()
            <= n,
    decreases ws.len(),
{
    if ws.len() > 0 {
        let before = pieces(ws.drop_last(), n);
        if i < before.len() {
            lemma_piece_lengths(ws.drop_last(), n, i);
            assert(forall|k: int| 0 <= k < ws.drop_last().len() ==> ws.drop_last()[k] == ws[k]);
        } else {
            lemma_chunk_lengths(ws.last(), n, i - before.len());
        }
    }
}

/// Lines packed from pieces that are shorter than `limit` stay shorter than
/// `limit`, for any `limit` above the width.
pub proof fn lemma_packed_lengths(ps: Seq<Seq<char>>, width: nat, limit: nat)
    requires
        limit >= width,
        limit >= 1,
        forall|i: int| 0 <= i < ps.len() ==> (#[trigger] ps[i]).len() < limit,
    ensures
        packed(ps, width).open.len() < limit,
        forall|i: int|
            0 <= i < packed(ps, width).closed.len() ==> (#[trigger] packed(ps, width).closed[i]).len()
                < limit,
    decreases ps.len(),
{
    if ps.len() > 0 {
        lemma_packed_lengths(ps.drop_last(), width, limit);
    }
}

/// No line of a wrapped text is longer than the width, and where no word
/// of the text has more than `width - 1` characters, every line is
/// shorter than the width.
pub proof fn lemma_wrapped_line_widths(text: Seq<char>, width: nat, i: int)
    requires
        width >= 2,
        0 <= i < wrapped_lines(text, width).len(),
    ensures
        wrapped_lines(text, width)[i].len() <= width,
        (forall|k: int| 0 <= k < words(text).len() ==> (#[trigger] words(text)[k]).len() < width)
            ==> wrapped_lines(text, width)[i].len() < width,
{
    let n = (width - 1) as nat;
    let ws = words(text);
    let ps = pieces(ws, n);
    assert forall|k: int| 0 <= k < ps.len() implies (#[trigger] ps[k]).len() < width + 1 by {
        lemma_piece_lengths(ws, n, k);
    }
    lemma_packed_lengths(ps, width, width + 1);
    if forall|k: int| 0 <= k < ws.len() ==> (#[trigger] ws[k]).len() < width {
        assert forall|k: int| 0 <= k < ps.len() implies (#[trigger] ps[k]).len() < width by {
            lemma_piece_lengths(ws, n, k);
        }
        lemma_packed_lengths(ps, width, width);
    }
}

/// The empty text is wrapped into one empty line.
pub proof fn lemma_wrapped_empty(width: nat)
    ensures
        wrapped_lines(Seq::empty(), width) == seq![Seq::<char>::empty()],
        wrapped(Seq::empty(), width) == Seq::<char>::empty(),
{
    let ws = words(Seq::empty());
    let n = (width - 1) as nat;
    assert(ws.drop_last() =~= Seq::<Seq<char>>::empty());
    assert(pieces(ws.drop_last(), n) =~= Seq::<Seq<char>>::empty());
    assert(pieces(ws, n) =~= Seq::<Seq<char>>::empty());
    assert(wrapped_lines(Seq::empty(), width) =~= seq![Seq::<char>::empty()]);
}

/// The words of a text are what lies between its spaces: no word holds a
/// space, and the words with one space between each two are the text.
pub proof fn lemma_words_split_at_spaces(text: Seq<char>)
    ensures
        words(text).len() >= 1,
        joined(words(text), seq![' ']) == text,
        forall|k: int, i: int|
            0 <= k < words(text).len() && 0 <= i < words(text)[k].len() ==> words(text)[k][i]
                != ' ',
    decreases text.len(),
{
    if text.len() == 0 {
        assert(joined(words(text), seq![' ']) =~= text);
    } else {
        let before = words(text.drop_last());
        lemma_words_split_at_spaces(text.drop_last());
        if text.last() == ' ' {
            assert(before.push(Seq::empty()).drop_last() =~= before);
            assert(joined(words(text), seq![' ']) =~= text.drop_last() + seq![' ']);
            assert(text.drop_last() + seq![' '] =~= text);
        } else {
            let grown = before.last().push(text.last());
            assert(before.drop_last().push(grown).drop_last() =~= before.drop_last());
            if before.len() == 1 {
                assert(joined(words(text), seq![' ']) =~= text.drop_last().push(text.last()));
            } else {
                assert(joined(words(text), seq![' ']) =~= (joined(before.drop_last(), seq![' '])
                    + seq![' '] + before.last()).push(text.last()));
            }
            assert(text.drop_last().push(text.last()) =~= text);
        }
    }
}

/// A text without its spaces.
pub open spec fn spaceless(text: Seq<char>) -> Seq<char> {
    text.filter(|c: char| c != ' ')
}

/// What a list of texts holds besides spaces: the texts in a row, each
/// without its spaces.
pub open spec fn letters(items: Seq<Seq<char>>) -> Seq<char>
    decreases items.len(),
{
    if items.len() == 0 {
        Seq::empty()
    } else {
        letters(items.drop_last()) + spaceless(items.last())
    }
}

/// Taking the spaces out of two texts in a row is taking them out of each.
pub proof fn lemma_spaceless_concat(a: Seq<char>, b: Seq<char>)
    ensures
        spaceless(a + b) == spaceless(a) + spaceless(b),
{
    Seq::filter_distributes_over_add(a, b, |c: char| c != ' ');
}

/// The letters of two lists in a row are the letters of each in a row.
pub proof fn lemma_letters_concat(a: Seq<Seq<char>>, b: Seq<Seq<char>>)
    ensures
        letters(a + b) == letters(a) + letters(b),
    decreases b.len(),
{
    if b.len() == 0 {
        assert(a + b =~= a);
        assert(letters(a) + letters(b) =~= letters(a));
    } else {
        lemma_letters_concat(a, b.drop_last());
        assert((a + b).drop_last() =~= a + b.drop_last());
        assert(letters(a + b) =~= letters(a) + letters(b));
    }
}

/// The words of a text hold what the text holds besides spaces.
pub proof fn lemma_words_keep_letters(text: Seq<char>)
    ensures
        words(text).len() >= 1,
        letters(words(text)) == spaceless(text),
    decreases text.len(),
{
    reveal(Seq::filter);
    if text.len() == 0 {
        assert(words(text).drop_last() =~= Seq::<Seq<char>>::empty());
        assert(letters(words(text).drop_last()) =~= Seq::<char>::empty());
        assert(spaceless(words(text).last()) =~= Seq::<char>::empty());
        assert(letters(words(text)) =~= spaceless(text));
    } else {
        let before = words(text.drop_last());
        lemma_words_keep_letters(text.drop_last());
        if text.last() == ' ' {
            assert(before.push(Seq::empty()).drop_last() =~= before);
            assert(letters(words(text)) =~= spaceless(text));
        } else {
            let grown = before.last().push(text.last());
            assert(before.drop_last().push(grown).drop_last() =~= before.drop_last());
            assert(grown.drop_last() =~= before.last());
            assert(spaceless(grown) =~= spaceless(before.last()).push(text.last()));
            assert(letters(words(text)) =~= spaceless(text));
        }
    }
}

/// Where no word has more than `n` characters, the pieces hold what the
/// words hold.
pub proof fn lemma_pieces_keep_letters(ws: Seq<Seq<char>>, n: nat)
    requires
        n >= 1,
        forall|k: int| 0 <= k < ws.len() ==> (#[trigger] ws[k]).len() <= n,
    ensures
        letters(pieces(ws, n)) == letters(ws),
    decreases ws.len(),
{
    reveal(Seq::filter);
    if ws.len() > 0 {
        assert(forall|k: int| 0 <= k < ws.drop_last().len() ==> ws.drop_last()[k] == ws[k]);
        lemma_pieces_keep_letters(ws.drop_last(), n);
        lemma_letters_concat(pieces(ws.drop_last(), n), chunked(ws.last(), n));
        let last = chunked(ws.last(), n);
        assert(ws[ws.len() - 1].len() <= n);
        if ws.last().len() == 0 {
            assert(letters(last) =~= spaceless(ws.last()));
        } else {
            assert(last =~= seq![ws.last()]);
            assert(last.drop_last() =~= Seq::<Seq<char>>::empty());
            assert(letters(last.drop_last()) =~= Seq::<char>::empty());
            assert(letters(last) =~= spaceless(ws.last()));
        }
    }
}

/// Packing loses nothing and adds nothing but spaces: the lines hold the
/// letters of the pieces, in their order.
pub proof fn lemma_packed_keeps_letters(ps: Seq<Seq<char>>, width: nat)
    ensures
        letters(packed(ps, width).closed.push(packed(ps, width).open)) == letters(ps),
    decreases ps.len(),
{
    reveal(Seq::filter);
    let state = packed(ps, width);
    assert(state.closed.push(state.open).drop_last() =~= state.closed);
    if ps.len() > 0 {
        let before = packed(ps.drop_last(), width);
        lemma_packed_keeps_letters(ps.drop_last(), width);
        assert(before.closed.push(before.open).drop_last() =~= before.closed);
        let piece = ps.last();
        if length_with(before.open, piece) >= width {
            assert(letters(state.closed) + spaceless(state.open) =~= letters(ps));
        } else if before.open.len() == 0 {
            assert(spaceless(before.open) =~= Seq::<char>::empty());
            assert(letters(state.closed) + spaceless(state.open) =~= letters(ps));
        } else {
            lemma_spaceless_concat(before.open.push(' '), piece);
            assert(before.open.push(' ').drop_last() =~= before.open);
            assert(spaceless(before.open.push(' ')) =~= spaceless(before.open));
            assert(letters(state.closed) + spaceless(state.open) =~= letters(ps));
        }
    } else {
        assert(letters(state.closed) + spaceless(state.open) =~= letters(ps));
    }
}

/// Wrapping changes nothing but spaces and hyphens: the lines hold the
/// letters of the pieces that the words were cut into. Where no word of
/// the text has more than `width - 1` characters, no word is cut, and the
/// lines hold what the text holds besides spaces.
pub proof fn lemma_wrapping_keeps_letters(text: Seq<char>, width: nat)
    requires
        width >= 2,
    ensures
        letters(wrapped_lines(text, width)) == letters(
            pieces(words(text), (width - 1) as nat),
        ),
        (forall|k: int| 0 <= k < words(text).len() ==> (#[trigger] words(text)[k]).len() < width)
            ==> letters(wrapped_lines(text, width)) == spaceless(text),
{
    let n = (width - 1) as nat;
    lemma_packed_keeps_letters(pieces(words(text), n), width);
    if forall|k: int| 0 <= k < words(text).len() ==> (#[trigger] words(text)[k]).len() < width {
        lemma_pieces_keep_letters(words(text), n);
        lemma_words_keep_letters(text);
    }
}

/// The characters of `text` from position `from` up to `to`.
pub fn slice_chars(text: &Vec<char>, from: usize, to: usize) -> (out: Vec<char>)
    requires
        from <= to <= text.len(),
    ensures
        out@ == text@.subrange(from as int, to as int),
{
    let mut out: Vec<char> = Vec::new();
    let mut i: usize = from;
    while i < to
        invariant
            from <= i <= to <= text.len(),
            out@ == text@.subrange(from as int, i as int),
        decreases to - i,
    {
        out.push(text[i]);
        i += 1;
        assert(out@ =~= text@.subrange(from as int, i as int));
    }
    out
}

/// Puts the characters of `tail` behind those of `text`.
pub fn append_chars(text: &mut Vec<char>, tail: &Vec<char>)
    ensures
        final(text)@ == old(text)@ + tail@,
{
    let mut i: usize = 0;
    while i < tail.len()
        invariant
            i <= tail.len(),
            text@ == old(text)@ + tail@.take(i as int),
        decreases tail.len() - i,
    {
        text.push(tail[i]);
        i += 1;
        assert(text@ =~= old(text)@ + tail@.take(i as int));
    }
    assert(tail@.take(i as int) =~= tail@);
}

/// Splits a text at its spaces.
pub fn split_words(text: &Vec<char>) -> (out: Vec<Vec<char>>)
    ensures
        views(out@) == words(text@),
{
    let mut done: Vec<Vec<char>> = Vec::new();
    let mut word: Vec<char> = Vec::new();
    let mut i: usize = 0;
    assert(views(done@).push(word@) =~= words(text@.take(0)));
    while i < text.len()
        invariant
            i <= text.len(),
            views(done@).push(word@) == words(text@.take(i as int)),
        decreases text.len() - i,
    {
        let ghost before = words(text@.take(i as int));
        proof {
            assert(text@.take(i + 1).drop_last() =~= text@.take(i as int));
            assert(before.last() == word@);
            assert(before.drop_last() =~= views(done@));
        }
        if text[i] == ' ' {
            let ghost early = views(done@);
            done.push(word);
            word = Vec::new();
            assert(views(done@) =~= before);
        } else {
            word.push(text[i]);
        }
        i += 1;
        assert(views(done@).push(word@) =~= words(text@.take(i as int)));
    }
    assert(text@.take(i as int) =~= text@);
    let ghost early = views(done@);
    done.push(word);
    assert(views(done@) =~= early.push(word@));
    done
}

/// Cuts one word into chunks of at most `n` characters and puts them
/// behind the chunks in `out`.
pub fn chunk_into(word: &Vec<char>, n: usize, out: &mut Vec<Vec<char>>)
    requires
        n >= 1,
    ensures
        views(final(out)@) == views(old(out)@) + chunked(word@, n as nat),
{
    let mut start: usize = 0;
    assert(word@.skip(0) =~= word@);
    assert(views(out@) + chunked(word@.skip(0), n as nat) =~= views(old(out)@) + chunked(
        word@,
        n as nat,
    ));
    while word.len() - start > n
        invariant
            n >= 1,
            start <= word.len(),
            views(out@) + chunked(word@.skip(start as int), n as nat) == views(old(out)@) + chunked(
                word@,
                n as nat,
            ),
        decreases word.len() - start,
    {
        let ghost rest = word@.skip(start as int);
        let ghost early = views(out@);
        let mut chunk = slice_chars(word, start, start + n);
        chunk.push('-');
        out.push(chunk);
        proof {
            assert(chunk@ =~= rest.take(n as int).push('-'));
            assert(rest.skip(n as int) =~= word@.skip(start + n));
            assert(views(out@) =~= early.push(chunk@));
            assert(early.push(chunk@) + chunked(rest.skip(n as int), n as nat) =~= early + chunked(
                rest,
                n as nat,
            ));
        }
        start += n;
    }
    let ghost rest = word@.skip(start as int);
    let ghost early = views(out@);
    if word.len() - start > 0 {
        let chunk = slice_chars(word, start, word.len());
        out.push(chunk);
        proof {
            assert(chunk@ =~= rest);
            assert(views(out@) =~= early + chunked(rest, n as nat));
        }
    } else {
        assert(early + chunked(rest, n as nat) =~= early);
    }
}

/// The chunks of all the words, in order.
pub fn collect_pieces(ws: &Vec<Vec<char>>, n: usize) -> (out: Vec<Vec<char>>)
    requires
        n >= 1,
    ensures
        views(out@) == pieces(views(ws@), n as nat),
{
    let mut out: Vec<Vec<char>> = Vec::new();
    let mut i: usize = 0;
    assert(views(out@) =~= pieces(views(ws@).take(0), n as nat));
    while i < ws.len()
        invariant
            n >= 1,
            i <= ws.len(),
            views(out@) == pieces(views(ws@).take(i as int), n as nat),
        decreases ws.len() - i,
    {
        proof {
            assert(views(ws@).take(i + 1).drop_last() =~= views(ws@).take(i as int));
            assert(views(ws@).take(i + 1).last() == ws@[i as int]@);
        }
        chunk_into(&ws[i], n, &mut out);
        i += 1;
    }
    assert(views(ws@).take(i as int) =~= views(ws@));
    out
}

/// Whether a line of `line_len` characters, with a piece of `piece_len`
/// more on it, reaches the width.
pub fn reaches_width(line_len: usize, piece_len: usize, width: usize) -> (out: bool)
    ensures
        out == (if line_len == 0 {
            piece_len as nat
        } else {
            (line_len + 1 + piece_len) as nat
        } >= width as nat),
{
    if line_len == 0 {
        piece_len >= width
    } else if line_len >= width {
        true
    } else {
        piece_len >= width - line_len - 1
    }
}

/// Packs pieces into lines, each as full as the width allows.
pub fn pack_lines(ps: &Vec<Vec<char>>, width: usize) -> (out: Vec<Vec<char>>)
    ensures
        views(out@) == packed(views(ps@), width as nat).closed.push(
            packed(views(ps@), width as nat).open,
        ),
{
    let mut lines: Vec<Vec<char>> = Vec::new();
    let mut line: Vec<char> = Vec::new();
    let mut i: usize = 0;
    assert(views(lines@) =~= packed(views(ps@).take(0), width as nat).closed);
    while i < ps.len()
        invariant
            i <= ps.len(),
            views(lines@) == packed(views(ps@).take(i as int), width as nat).closed,
            line@ == packed(views(ps@).take(i as int), width as nat).open,
        decreases ps.len() - i,
    {
        proof {
            assert(views(ps@).take(i + 1).drop_last() =~= views(ps@).take(i as int));
            assert(views(ps@).take(i + 1).last() == ps@[i as int]@);
        }
        let ghost early = views(lines@);
        let ghost state = packed(views(ps@).take(i as int), width as nat);
        let piece = &ps[i];
        if reaches_width(line.len(), piece.len(), width) {
            lines.push(line);
            line = Vec::new();
            assert(views(lines@) =~= early.push(state.open));
        }
        if line.len() != 0 {
            line.push(' ');
        }
        append_chars(&mut line, piece);
        i += 1;
        assert(line@ =~= packed(views(ps@).take(i as int), width as nat).open);
    }
    assert(views(ps@).take(i as int) =~= views(ps@));
    let ghost early = views(lines@);
    lines.push(line);
    assert(views(lines@) =~= early.push(line@));
    lines
}

/// Puts texts in a row with `sep` between each two.
pub fn join_chars(items: &Vec<Vec<char>>, sep: &Vec<char>) -> (out: Vec<char>)
    ensures
        out@ == joined(views(items@), sep@),
{
    let mut out: Vec<char> = Vec::new();
    let mut i: usize = 0;
    assert(views(items@).take(0) =~= Seq::<Seq<char>>::empty());
    while i < items.len()
        invariant
            i <= items.len(),
            out@ == joined(views(items@).take(i as int), sep@),
        decreases items.len() - i,
    {
        proof {
            assert(views(items@).take(i + 1).drop_last() =~= views(items@).take(i as int));
            assert(views(items@).take(i + 1).last() == items@[i as int]@);
            if i == 0 {
                assert(views(items@).take(1)[0] == items@[0]@);
            }
        }
        if i > 0 {
            append_chars(&mut out, sep);
        }
        append_chars(&mut out, &items[i]);
        i += 1;
        assert(out@ =~= joined(views(items@).take(i as int), sep@));
    }
    assert(views(items@).take(i as int) =~= views(items@));
    out
}

/// Wraps a text given as characters.
pub fn wrap_chars(text: &Vec<char>, max_width: usize) -> (out: Vec<char>)
    requires
        max_width >= 2,
    ensures
        out@ == wrapped(text@, max_width as nat),
{
    let ws = split_words(text);
    let ps = collect_pieces(&ws, max_width - 1);
    let lines = pack_lines(&ps, max_width);
    let mut line_break: Vec<char> = Vec::new();
    line_break.push('\n');
    assert(line_break@ =~= seq!['\n']);
    join_chars(&lines, &line_break)
}

/// Wraps a text to lines of at most `max_width` characters. A word of fewer
/// than `max_width` characters is kept whole, and a line of such words is
/// shorter than `max_width`; a longer word is cut into chunks of
/// `max_width - 1` characters, with a hyphen at each cut.
pub fn wrap_text(text: &str, max_width: usize) -> (out: String)
    requires
        max_width >= 2,
    ensures
        out@ == wrapped(text@, max_width as nat),
        forall|i: int|
            0 <= i < wrapped_lines(text@, max_width as nat).len() ==> (#[trigger] wrapped_lines(
                text@,
                max_width as nat,
            )[i]).len() <= max_width,
        (forall|k: int| 0 <= k < words(text@).len() ==> (#[trigger] words(text@)[k]).len() < max_width)
            ==> forall|i: int|
            0 <= i < wrapped_lines(text@, max_width as nat).len() ==> (#[trigger] wrapped_lines(
                text@,
                max_width as nat,
            )[i]).len() < max_width,
        text@.len() == 0 ==> wrapped_lines(text@, max_width as nat) == seq![Seq::<char>::empty()],
{
    let source = chars_of(text);
    let wrapped_chars = wrap_chars(&source, max_width);
    proof {
        assert forall|i: int| 0 <= i < wrapped_lines(text@, max_width as nat).len() implies (
        #[trigger] wrapped_lines(text@, max_width as nat)[i]).len() <= max_width && ((forall|k: int|
            0 <= k < words(text@).len() ==> (#[trigger] words(text@)[k]).len() < max_width)
            ==> wrapped_lines(text@, max_width as nat)[i].len() < max_width) by {
            lemma_wrapped_line_widths(text@, max_width as nat, i);
        }
        if text@.len() == 0 {
            assert(text@ =~= Seq::<char>::empty());
            lemma_wrapped_empty(max_width as nat);
        }
    }
    string_of(&wrapped_chars)
}

} // verus!
