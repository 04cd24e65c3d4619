use vstd::prelude::*;

use vstd::utf8::{char_is_scalar, encode_scalar, encode_utf8};

use crate::text::{dec_of, usize_to_string};

verus! {

/// What `str::trim` returns: the string with leading and trailing whitespace
/// removed.
pub uninterp spec fn trim_of(s: Seq<char>) -> Seq<char>;

/// Relies on str::trim: returns the slice with leading and trailing
/// whitespace removed; the result depends on the characters alone.
#[verifier::external_body]
fn str_trim(s: &str) -> (r: &str)
    ensures
        r@ == trim_of(s@),
{
    s.trim()
}

/// A line with no content: nothing is left of it once whitespace is trimmed
/// away.
pub open spec fn blank(s: Seq<char>) -> bool {
    trim_of(s).len() == 0
}

/// Whether a line is blank.
pub fn is_blank(s: &str) -> (r: bool)
    ensures
        r == blank(s@),
{
    str_trim(s).is_empty()
}

/// The start the context window would have before trimming: two lines above
/// the violation line, clamped to the first line of the file.
pub open spec fn raw_window_start(line: int) -> int {
    if line <= 3 {
        1
    } else {
        line - 2
    }
}

/// The end the context window would have before trimming: two lines below
/// the violation line, clamped to the last line of the file.
pub open spec fn raw_window_end(lines: Seq<Seq<char>>, line: int) -> int {
    if lines.len() - line <= 2 {
        lines.len() as int
    } else {
        line + 2
    }
}

/// Advances the window start past blank lines, but never to or past the
/// violation line. Lines are 1-indexed.
pub open spec fn trimmed_start(lines: Seq<Seq<char>>, s: int, line: int) -> int
    decreases line - s,
{
    if s < line && blank(lines[s - 1]) {
        trimmed_start(lines, s + 1, line)
    } else {
        s
    }
}

/// Retreats the window end past blank lines, but never to or past the
/// violation line.
pub open spec fn trimmed_end(lines: Seq<Seq<char>>, e: int, line: int) -> int
    decreases e - line,
{
    if e > line && blank(lines[e - 1]) {
        trimmed_end(lines, e - 1, line)
    } else {
        e
    }
}

/// The first line of the context window around a violation line: two lines
/// of context, clamped into the file, with leading blank lines trimmed.
pub open spec fn window_start_spec(lines: Seq<Seq<char>>, line: int) -> int {
    trimmed_start(lines, raw_window_start(line), line)
}

/// One past the last line of the context window: two lines of context,
/// clamped into the file, with trailing blank lines trimmed.
pub open spec fn window_end_spec(lines: Seq<Seq<char>>, line: int) -> int {
    trimmed_end(lines, raw_window_end(lines, line), line)
}

proof fn lemma_trimmed_start_bounds(lines: Seq<Seq<char>>, s: int, line: int)
    requires
        s <= line,
    ensures
        s <= trimmed_start(lines, s, line) <= line,
    decreases line - s,
{
    if s < line && blank(lines[s - 1]) {
        lemma_trimmed_start_bounds(lines, s + 1, line);
    }
}

proof fn lemma_trimmed_end_bounds(lines: Seq<Seq<char>>, e: int, line: int)
    requires
        line <= e,
    ensures
        line <= trimmed_end(lines, e, line) <= e,
    decreases e - line,
{
    if e > line && blank(lines[e - 1]) {
        lemma_trimmed_end_bounds(lines, e - 1, line);
    }
}

/// Window clamping law: the context window around a violation line never
/// leaves the file. It begins at most two lines above the violation line and
/// no earlier than line 1, and it ends at most two lines below the violation
/// line and no later than the last line.
pub proof fn lemma_window_clamped(lines: Seq<Seq<char>>, line: int)
    requires
        1 <= line <= lines.len(),
    ensures
        1 <= window_start_spec(lines, line) <= line,
        line - 2 <= window_start_spec(lines, line),
        line <= window_end_spec(lines, line) <= lines.len(),
        window_end_spec(lines, line) <= line + 2,
{
    lemma_trimmed_start_bounds(lines, raw_window_start(line), line);
    lemma_trimmed_end_bounds(lines, raw_window_end(lines, line), line);
}

/// Blank-line trimming law: every line the trimming skipped was blank, and
/// the window never begins on a blank line unless the trimming consumed all
/// context above the violation line.
pub proof fn lemma_window_start_trimming(lines: Seq<Seq<char>>, line: int)
    requires
        1 <= line <= lines.len(),
    ensures
        window_start_spec(lines, line) == line || !blank(
            lines[window_start_spec(lines, line) - 1],
        ),
        forall|k: int|
            raw_window_start(line) <= k < window_start_spec(lines, line) ==> blank(
                #[trigger] lines[k - 1],
            ),
{
    lemma_trimmed_start_blanks(lines, raw_window_start(line), line);
}

/// A blank line standing at the head of the untrimmed window, above the
/// violation line, is skipped: the window starts past it. (A blank line
/// deeper inside the window is kept; only the head is trimmed.)
pub proof fn lemma_window_skips_blank_head(lines: Seq<Seq<char>>, line: int)
    requires
        1 <= line <= lines.len(),
        raw_window_start(line) < line,
        blank(lines[raw_window_start(line) - 1]),
    ensures
        window_start_spec(lines, line) > raw_window_start(line),
{
    lemma_trimmed_start_bounds(lines, raw_window_start(line) + 1, line);
}

proof fn lemma_trimmed_start_blanks(lines: Seq<Seq<char>>, s: int, line: int)
    requires
        s <= line,
    ensures
        trimmed_start(lines, s, line) == line || !blank(lines[trimmed_start(lines, s, line) - 1]),
        forall|k: int| s <= k < trimmed_start(lines, s, line) ==> blank(#[trigger] lines[k - 1]),
    decreases line - s,
{
    if s < line && blank(lines[s - 1]) {
        lemma_trimmed_start_blanks(lines, s + 1, line);
    }
}

/// The windowed lines, each followed by its line terminator, concatenated
/// into one block. `from` and `to` are 0-indexed; the block covers lines
/// `[from, to)`.
pub open spec fn joined_lines(lines: Seq<Seq<char>>, from: int, to: int) -> Seq<char>
    decreases to - from,
{
    if from >= to {
        Seq::empty()
    } else {
        joined_lines(lines, from, to - 1) + lines[to - 1] + seq!['\n']
    }
}

/// The UTF-8 byte length of a text. Annotation offsets are measured in
/// bytes, because the snippet renderer slices its source by byte index.
pub open spec fn byte_len(s: Seq<char>) -> int {
    encode_utf8(s).len() as int
}

/// UTF-8 encoding distributes over concatenation.
proof fn lemma_encode_utf8_concat(a: Seq<char>, b: Seq<char>)
    ensures
        encode_utf8(a + b) == encode_utf8(a) + encode_utf8(b),
    decreases a.len(),
{
    if a.len() == 0 {
        assert(a + b =~= b);
        assert(encode_utf8(a) + encode_utf8(b) =~= encode_utf8(b));
    } else {
        assert((a + b).drop_first() =~= a.drop_first() + b);
        lemma_encode_utf8_concat(a.drop_first(), b);
        assert((a + b)[0] == a[0]);
        assert(encode_utf8(a + b) =~= encode_utf8(a) + encode_utf8(b));
    }
}

proof fn lemma_encode_utf8_singleton(c: char)
    ensures
        encode_utf8(seq![c]) == encode_scalar(c as u32),
{
    assert(seq![c].len() == 1);
    assert(seq![c][0] == c);
    assert(seq![c].drop_first() =~= Seq::<char>::empty());
    assert(encode_utf8(seq![c]) == encode_scalar(c as u32) + encode_utf8(seq![c].drop_first()));
    assert(encode_utf8(Seq::<char>::empty()) =~= Seq::<u8>::empty());
    assert(encode_scalar(c as u32) + Seq::<u8>::empty() =~= encode_scalar(c as u32));
}

proof fn lemma_byte_len_push(s: Seq<char>, c: char)
    ensures
        byte_len(s.push(c)) == byte_len(s) + encode_scalar(c as u32).len(),
{
    assert(s.push(c) =~= s + seq![c]);
    lemma_encode_utf8_concat(s, seq![c]);
    lemma_encode_utf8_singleton(c);
}

/// A character's UTF-8 encoding is never empty, so a text has at least as
/// many bytes as characters.
proof fn lemma_byte_len_ge_len(s: Seq<char>)
    ensures
        byte_len(s) >= s.len(),
    decreases s.len(),
{
    if s.len() > 0 {
        lemma_byte_len_ge_len(s.drop_first());
    }
}

/// The byte count of lines `[from, to)`, counting one terminator byte for
/// each line: the offset the lines contribute before a position further down
/// the block.
pub open spec fn offset_sum(lines: Seq<Seq<char>>, from: int, to: int) -> int
    decreases to - from,
{
    if from >= to {
        0
    } else {
        offset_sum(lines, from, to - 1) + byte_len(lines[to - 1]) + 1
    }
}

proof fn lemma_offset_sum_nonneg(lines: Seq<Seq<char>>, from: int, to: int)
    ensures
        0 <= offset_sum(lines, from, to),
    decreases to - from,
{
    if from < to {
        lemma_offset_sum_nonneg(lines, from, to - 1);
    }
}

proof fn lemma_offset_sum_split(lines: Seq<Seq<char>>, from: int, mid: int, to: int)
    requires
        from <= mid <= to,
    ensures
        offset_sum(lines, from, to) == offset_sum(lines, from, mid) + offset_sum(lines, mid, to),
    decreases to - mid,
{
    if mid < to {
        lemma_offset_sum_split(lines, from, mid, to - 1);
    }
}

proof fn lemma_joined_lines_split(lines: Seq<Seq<char>>, from: int, mid: int, to: int)
    requires
        from <= mid <= to,
    ensures
        joined_lines(lines, from, to) == joined_lines(lines, from, mid) + joined_lines(
            lines,
            mid,
            to,
        ),
    decreases to - mid,
{
    if mid == to {
        assert(joined_lines(lines, from, to) =~= joined_lines(lines, from, mid) + joined_lines(
            lines,
            mid,
            to,
        ));
    } else {
        lemma_joined_lines_split(lines, from, mid, to - 1);
        assert(joined_lines(lines, from, to) =~= joined_lines(lines, from, mid) + joined_lines(
            lines,
            mid,
            to,
        ));
    }
}

proof fn lemma_joined_lines_bytes(lines: Seq<Seq<char>>, from: int, to: int)
    ensures
        byte_len(joined_lines(lines, from, to)) == offset_sum(lines, from, to),
    decreases to - from,
{
    if from < to {
        lemma_joined_lines_bytes(lines, from, to - 1);
        lemma_encode_utf8_concat(joined_lines(lines, from, to - 1), lines[to - 1]);
        lemma_encode_utf8_concat(joined_lines(lines, from, to - 1) + lines[to - 1], seq!['\n']);
        lemma_encode_utf8_singleton('\n');
        assert(encode_scalar('\n' as u32).len() == 1);
    }
}

/// The character the annotation underlines: the column's character, the
/// line terminator when the column lies just past the line's characters,
/// and the line's first character (or, on an empty line, its terminator)
/// when the column is 0.
pub open spec fn annotated_char(lines: Seq<Seq<char>>, line: int, col: int) -> char {
    let l = lines[line - 1];
    if col >= 1 && col - 1 < l.len() {
        l[col - 1]
    } else if col == 0 && l.len() > 0 {
        l[0]
    } else {
        '\n'
    }
}

/// The byte offset of the annotation within the window block: the bytes of
/// the window lines above the violation line, terminators included, plus the
/// bytes of the violation line's first `col - 1` characters (column 0, used
/// when only the line is known, marks the line start and never underflows).
pub open spec fn label_offset_spec(lines: Seq<Seq<char>>, line: int, col: int) -> int {
    let ws = window_start_spec(lines, line);
    offset_sum(lines, ws - 1, line - 1) + (if col >= 1 {
        byte_len(lines[line - 1].take(col - 1))
    } else {
        0
    })
}

/// What an annotated excerpt looks like: the text that the snippet renderer
/// produces for a warning titled `title` over the source block `content`
/// tagged as starting at line `line_start`, with a span over the bytes
/// `[start, end)` labelled `label`, on a terminal `term_width` columns wide.
pub uninterp spec fn snippet_block_of(
    title: Seq<char>,
    content: Seq<char>,
    line_start: int,
    start: int,
    end: int,
    term_width: int,
    label: Seq<char>,
) -> Seq<char>;

/// Relies on annotate_snippets: `Level::Warning.title(..)` over one
/// `Snippet::source(..)` with a `Level::Error` annotation spanning the bytes
/// `[start, end)`, rendered by `Renderer::styled().term_width(..)`. The
/// stylesheet is fixed when the library is compiled (it differs on a
/// Windows-built binary, like pointer width, but never at run time), so the
/// output depends on the arguments alone. The renderer slices its source at
/// the span's byte positions and rejects a span past the buffer, so both
/// ends must be byte lengths of character prefixes of the content (the end
/// may also be one past the whole buffer). Its margin cuts lines wider than
/// the terminal with arithmetic that underflows for indented lines, so the
/// terminal must be wide enough that no line of the content is ever cut: a
/// line's columns never exceed its bytes, and the renderer reserves a gutter
/// of 3 columns plus the line number's digits. Its line counter runs up from
/// `line_start`, one step per line of the content, and must not wrap; its
/// column sums reach at most six times the content's bytes (a one-byte tab
/// counts four columns) plus the label and small paddings, and must not
/// wrap either.
#[verifier::external_body]
fn render_snippet(
    title: &str,
    content: &str,
    line_start: usize,
    start: usize,
    end: usize,
    term_width: usize,
    label: &str,
) -> (r: String)
    requires
        start <= end,
        end as int <= byte_len(content@) + 1,
        exists|k: int| 0 <= k <= content@.len() && start as int == byte_len(#[trigger] content@.take(k)),
        (exists|k: int|
            0 <= k <= content@.len() && end as int == byte_len(#[trigger] content@.take(k))) || end
            as int == byte_len(content@) + 1,
        term_width as int >= 2 * byte_len(content@) + 64,
        6 * byte_len(content@) + byte_len(label@) + 128 <= usize::MAX,
        line_start as int + content@.len() <= usize::MAX,
    ensures
        r@ == snippet_block_of(
            title@,
            content@,
            line_start as int,
            start as int,
            end as int,
            term_width as int,
            label@,
        ),
{
    let snippet = annotate_snippets::Level::Warning.title(title).snippet(
        annotate_snippets::Snippet::source(content).line_start(line_start).annotation(
            annotate_snippets::Level::Error.span(start..end).label(label),
        ),
    );
    annotate_snippets::Renderer::styled().term_width(term_width).render(snippet).to_string()
}

/// The title line of a localized diagnostic:
/// `<path>:<line>:<col>: <code> <message>`.
pub open spec fn title_spec(
    path: Seq<char>,
    line: int,
    col: int,
    code: Seq<char>,
    message: Seq<char>,
) -> Seq<char> {
    path + seq![':'] + dec_of(line) + seq![':'] + dec_of(col) + seq![':', ' '] + code + seq![' ']
        + message
}

/// The single line a diagnostic without a position renders to:
/// `<path>: <code> <message>`.
pub open spec fn spec_render_unlocalized(
    path: Seq<char>,
    code: Seq<char>,
    message: Seq<char>,
) -> Seq<char> {
    path + seq![':', ' '] + code + seq![' '] + message
}

/// What a localized rendering needs of its position: the violation line
/// must lie in the file, the column must not point past one beyond the
/// line's characters (the snippet renderer rejects an annotation past its
/// buffer), and the window's bytes must leave machine headroom — enough for
/// a terminal wide enough that no window line is ever cut, for the
/// renderer's label-column sums over `code`, and for its line counter.
pub open spec fn localized_requires(
    line: int,
    col: int,
    code: Seq<char>,
    lines: Seq<Seq<char>>,
) -> bool {
    &&& 1 <= line <= lines.len()
    &&& col <= lines[line - 1].len() + 1
    &&& line + 6 * offset_sum(
        lines,
        window_start_spec(lines, line) - 1,
        window_end_spec(lines, line),
    ) + byte_len(code) + 128 <= usize::MAX
}

/// The text a localized diagnostic renders to: the annotated excerpt of the
/// trimmed context window, under a title line, with the violation's column
/// underlined (the whole character's bytes are spanned), followed by a line
/// terminator.
pub open spec fn spec_render_localized(
    path: Seq<char>,
    code: Seq<char>,
    message: Seq<char>,
    line: int,
    col: int,
    lines: Seq<Seq<char>>,
) -> Seq<char> {
    let ws = window_start_spec(lines, line);
    let we = window_end_spec(lines, line);
    let off = label_offset_spec(lines, line, col);
    let end = off + encode_scalar(annotated_char(lines, line, col) as u32).len();
    snippet_block_of(
        title_spec(path, line, col, code, message),
        joined_lines(lines, ws - 1, we),
        ws,
        off,
        end,
        2 * offset_sum(lines, ws - 1, we) + 64,
        code,
    ) + seq!['\n']
}

/// Computes the first line of the context window, trimming leading blank
/// lines.
pub fn window_start(lines: &Vec<String>, line: usize) -> (r: usize)
    requires
        1 <= line <= lines@.len(),
    ensures
        r as int == window_start_spec(lines.deep_view(), line as int),
        1 <= r <= line,
{
    let ghost dv = lines.deep_view();
    let mut start: usize = if line <= 3 {
        1
    } else {
        line - 2
    };
    proof {
        lemma_trimmed_start_bounds(dv, start as int, line as int);
    }
    while start < line && is_blank(lines[start - 1].as_str())
        invariant
            1 <= start <= line <= lines@.len(),
            dv == lines.deep_view(),
            trimmed_start(dv, start as int, line as int) == window_start_spec(dv, line as int),
        decreases line - start,
    {
        proof {
            assert(dv[start - 1] == lines@[start - 1]@);
            lemma_trimmed_start_bounds(dv, start as int + 1, line as int);
        }
        start = start + 1;
    }
    proof {
        if start < line {
            assert(dv[start - 1] == lines@[start - 1]@);
        }
        assert(trimmed_start(dv, start as int, line as int) == start as int);
    }
    start
}

/// Computes one past the last line of the context window, trimming trailing
/// blank lines.
pub fn window_end(lines: &Vec<String>, line: usize) -> (r: usize)
    requires
        1 <= line <= lines@.len(),
    ensures
        r as int == window_end_spec(lines.deep_view(), line as int),
        line <= r <= lines@.len(),
{
    let ghost dv = lines.deep_view();
    let mut end: usize = if lines.len() - line <= 2 {
        lines.len()
    } else {
        line + 2
    };
    proof {
        lemma_trimmed_end_bounds(dv, end as int, line as int);
    }
    while end > line && is_blank(lines[end - 1].as_str())
        invariant
            1 <= line <= end <= lines@.len(),
            dv == lines.deep_view(),
            trimmed_end(dv, end as int, line as int) == window_end_spec(dv, line as int),
        decreases end - line,
    {
        proof {
            assert(dv[end - 1] == lines@[end - 1]@);
            lemma_trimmed_end_bounds(dv, end as int - 1, line as int);
        }
        end = end - 1;
    }
    proof {
        if end > line {
            assert(dv[end - 1] == lines@[end - 1]@);
        }
        assert(trimmed_end(dv, end as int, line as int) == end as int);
    }
    end
}

/// Concatenates the windowed lines, each followed by its line terminator.
fn build_block(lines: &Vec<String>, from: usize, to: usize) -> (r: String)
    requires
        from <= to <= lines@.len(),
    ensures
        r@ == joined_lines(lines.deep_view(), from as int, to as int),
{
    let ghost dv = lines.deep_view();
    let mut block = String::new();
    let mut i: usize = from;
    proof {
        assert(block@ =~= joined_lines(dv, from as int, from as int));
    }
    while i < to
        invariant
            from <= i <= to <= lines@.len(),
            dv == lines.deep_view(),
            block@ == joined_lines(dv, from as int, i as int),
        decreases to - i,
    {
        block.append(lines[i].as_str());
        block.append("\n");
        proof {
            reveal_strlit("\n");
            assert(dv[i as int] == lines@[i as int]@);
            assert("\n"@ =~= seq!['\n']);
            assert(block@ =~= joined_lines(dv, from as int, i as int + 1));
        }
        i = i + 1;
    }
    block
}

/// The byte count of a character's UTF-8 encoding.
fn char_utf8_width(c: char) -> (w: usize)
    ensures
        w as int == encode_scalar(c as u32).len(),
{
    proof {
        char_is_scalar(c);
    }
    let u = c as u32;
    if u < 0x80 {
        1
    } else if u < 0x800 {
        2
    } else if u < 0x10000 {
        3
    } else {
        4
    }
}

/// The character a localized rendering underlines: the column's character,
/// or the line's terminator when the column lies just past its characters.
fn pick_annotated_char(lines: &Vec<String>, line: usize, col: usize) -> (c: char)
    requires
        1 <= line <= lines@.len(),
        col <= lines.deep_view()[line - 1].len() + 1,
    ensures
        c == annotated_char(lines.deep_view(), line as int, col as int),
{
    let ghost dv = lines.deep_view();
    proof {
        assert(dv[line - 1] == lines@[line - 1]@);
    }
    let l = lines[line - 1].as_str();
    let l_chars = l.unicode_len();
    if col >= 1 {
        if col - 1 < l_chars {
            l.get_char(col - 1)
        } else {
            '\n'
        }
    } else {
        if l_chars > 0 {
            l.get_char(0)
        } else {
            '\n'
        }
    }
}

/// The byte offset to underline within a window block that begins at line
/// `from`: the byte counts, terminators included, of the lines above the
/// violation line, plus the bytes of the first `col - 1` characters of the
/// violation line, never underflowing when the column is 0 or 1. Offsets
/// count bytes, the unit in which the annotated excerpt is sliced.
pub fn annotation_offset(lines: &Vec<String>, from: usize, line: usize, col: usize) -> (r: usize)
    requires
        1 <= from <= line <= lines@.len(),
        col >= 1 ==> col - 1 <= lines.deep_view()[line - 1].len(),
        offset_sum(lines.deep_view(), from - 1, line - 1) + (if col >= 1 {
            byte_len(lines.deep_view()[line - 1].take(col - 1))
        } else {
            0int
        }) <= usize::MAX,
    ensures
        r as int == offset_sum(lines.deep_view(), from - 1, line - 1) + (if col >= 1 {
            byte_len(lines.deep_view()[line - 1].take(col - 1))
        } else {
            0int
        }),
{
    let ghost dv = lines.deep_view();
    let ghost col_part: int = if col >= 1 {
        byte_len(dv[line - 1].take(col as int - 1))
    } else {
        0
    };
    let mut acc: usize = 0;
    let mut i: usize = from - 1;
    while i < line - 1
        invariant
            from - 1 <= i <= line - 1 < lines@.len(),
            dv == lines.deep_view(),
            acc as int == offset_sum(dv, from as int - 1, i as int),
            offset_sum(dv, from as int - 1, line as int - 1) + col_part <= usize::MAX,
            col_part >= 0,
        decreases line - 1 - i,
    {
        proof {
            assert(dv[i as int] == lines@[i as int]@);
            lemma_offset_sum_split(dv, from as int - 1, i as int + 1, line as int - 1);
            lemma_offset_sum_nonneg(dv, i as int + 1, line as int - 1);
        }
        let len: usize = lines[i].as_str().as_bytes().len();
        acc = acc + len + 1;
        i = i + 1;
    }
    if col >= 1 {
        proof {
            assert(dv[line - 1] == lines@[line - 1]@);
        }
        let prefix = lines[line - 1].as_str().substring_char(0, col - 1);
        acc + prefix.as_bytes().len()
    } else {
        acc
    }
}

/// Decides whether a localized rendering is within bounds: the violation
/// line must lie in the file, the column must not point past one beyond the
/// line's characters, and the window's bytes must leave the machine
/// headroom the excerpt renderer needs.
pub fn localized_in_bounds(lines: &Vec<String>, line: usize, col: usize, code: &str) -> (r: bool)
    ensures
        r == localized_requires(line as int, col as int, code@, lines.deep_view()),
{
    let ghost dv = lines.deep_view();
    if line < 1 || line > lines.len() {
        return false;
    }
    proof {
        assert(dv[line - 1] == lines@[line - 1]@);
    }
    let line_chars = lines[line - 1].as_str().unicode_len();
    if col >= 1 && col - 1 > line_chars {
        return false;
    }
    let start = window_start(lines, line);
    let endw = window_end(lines, line);
    let mut acc: usize = 0;
    let mut i: usize = start - 1;
    while i < endw
        invariant
            start - 1 <= i <= endw <= lines@.len(),
            1 <= start <= line <= endw,
            dv == lines.deep_view(),
            start as int == window_start_spec(dv, line as int),
            endw as int == window_end_spec(dv, line as int),
            acc as int == offset_sum(dv, start as int - 1, i as int),
        decreases endw - i,
    {
        proof {
            assert(dv[i as int] == lines@[i as int]@);
            lemma_offset_sum_split(dv, start as int - 1, i as int + 1, endw as int);
            lemma_offset_sum_nonneg(dv, i as int + 1, endw as int);
        }
        let len: usize = lines[i].as_str().as_bytes().len();
        let grown = match acc.checked_add(len) {
            Some(step) => step.checked_add(1),
            None => None,
        };
        match grown {
            Some(next) => {
                acc = next;
            },
            None => {
                return false;
            },
        }
        i = i + 1;
    }
    let scaled = match acc.checked_mul(6) {
        Some(d) => d,
        None => {
            return false;
        },
    };
    let with_line = match scaled.checked_add(line) {
        Some(v) => v,
        None => {
            return false;
        },
    };
    let with_code = match with_line.checked_add(code.as_bytes().len()) {
        Some(v) => v,
        None => {
            return false;
        },
    };
    match with_code.checked_add(128) {
        Some(_) => true,
        None => false,
    }
}

/// The annotation's byte span within the window block covers exactly the
/// underlined character: both its ends are byte lengths of character
/// prefixes of the block, and the end never passes the block.
proof fn lemma_label_offset_is_char_prefix(lines: Seq<Seq<char>>, line: int, col: int)
    requires
        1 <= line <= lines.len(),
        0 <= col <= lines[line - 1].len() + 1,
    ensures
        ({
            let ws = window_start_spec(lines, line);
            let we = window_end_spec(lines, line);
            let content = joined_lines(lines, ws - 1, we);
            let k = joined_lines(lines, ws - 1, line - 1).len() + (if col >= 1 {
                col - 1
            } else {
                0int
            });
            &&& 0 <= k < content.len()
            &&& label_offset_spec(lines, line, col) == byte_len(content.take(k))
            &&& content[k] == annotated_char(lines, line, col)
            &&& label_offset_spec(lines, line, col) + encode_scalar(
                annotated_char(lines, line, col) as u32,
            ).len() == byte_len(content.take(k + 1))
            &&& byte_len(content.take(k + 1)) <= byte_len(content)
        }),
{
    let ws = window_start_spec(lines, line);
    let we = window_end_spec(lines, line);
    lemma_trimmed_start_bounds(lines, raw_window_start(line), line);
    lemma_trimmed_end_bounds(lines, raw_window_end(lines, line), line);
    let l = lines[line - 1];
    let cp: int = if col >= 1 {
        col - 1
    } else {
        0
    };
    let a = joined_lines(lines, ws - 1, line - 1);
    let tail = joined_lines(lines, line, we);
    let content = joined_lines(lines, ws - 1, we);
    lemma_joined_lines_split(lines, ws - 1, line - 1, we);
    lemma_joined_lines_split(lines, line - 1, line, we);
    assert(joined_lines(lines, line - 1, line - 1) =~= Seq::<char>::empty());
    assert(joined_lines(lines, line - 1, line) =~= l + seq!['\n']);
    assert(content =~= a + (l + seq!['\n']) + tail);
    let k = a.len() + cp;
    assert(content.take(k) =~= a + l.take(cp));
    lemma_encode_utf8_concat(a, l.take(cp));
    lemma_joined_lines_bytes(lines, ws - 1, line - 1);
    assert(label_offset_spec(lines, line, col) == byte_len(content.take(k)));
    let ac = annotated_char(lines, line, col);
    if col >= 1 && col - 1 < l.len() {
        assert(content[k] == l[cp]);
    } else if col == 0 && l.len() > 0 {
        assert(content[k] == l[0]);
    } else {
        assert(cp == l.len());
        assert(content[k] == '\n');
    }
    assert(content.take(k + 1) =~= content.take(k).push(content[k]));
    lemma_byte_len_push(content.take(k), content[k]);
    assert(content =~= content.take(k + 1) + content.skip(k + 1));
    lemma_encode_utf8_concat(content.take(k + 1), content.skip(k + 1));
    assert(byte_len(content.take(k + 1)) <= byte_len(content));
}

/// Renders a diagnostic that carries no position: one line,
/// `<path>: <code> <message>`, with no snippet.
pub fn render_unlocalized(path: &str, code: &str, message: &str) -> (r: String)
    ensures
        r@ == spec_render_unlocalized(path@, code@, message@),
{
    let mut out = String::new();
    out.append(path);
    out.append(": ");
    out.append(code);
    out.append(" ");
    out.append(message);
    proof {
        reveal_strlit(": ");
        reveal_strlit(" ");
        assert(": "@ =~= seq![':', ' ']);
        assert(" "@ =~= seq![' ']);
        assert(out@ =~= spec_render_unlocalized(path@, code@, message@));
    }
    out
}

/// Renders a diagnostic located at a line (column 0 when only the line is
/// known): a title line over an annotated excerpt of the file around the
/// violation line. `lines` is the file's text, split into lines.
pub fn render_localized(
    path: &str,
    code: &str,
    message: &str,
    line: usize,
    col: usize,
    lines: &Vec<String>,
) -> (r: String)
    requires
        localized_requires(line as int, col as int, code@, lines.deep_view()),
    ensures
        r@ == spec_render_localized(path@, code@, message@, line as int, col as int,
        lines.deep_view()),
{
    let ghost dv = lines.deep_view();
    let start = window_start(lines, line);
    let end = window_end(lines, line);
    let content = build_block(lines, start - 1, end);
    proof {
        assert(dv[line - 1] == lines@[line - 1]@);
        lemma_label_offset_is_char_prefix(dv, line as int, col as int);
        lemma_joined_lines_bytes(dv, start as int - 1, end as int);
        lemma_byte_len_ge_len(content@);
        lemma_offset_sum_nonneg(dv, start as int - 1, end as int);
    }
    let content_bytes: usize = content.as_str().as_bytes().len();
    let term_width: usize = 2 * content_bytes + 64;
    let off = annotation_offset(lines, start, line, col);
    let width = char_utf8_width(pick_annotated_char(lines, line, col));
    let span_end = off + width;
    let mut title = String::new();
    title.append(path);
    title.append(":");
    let line_text = usize_to_string(line);
    title.append(line_text.as_str());
    title.append(":");
    let col_text = usize_to_string(col);
    title.append(col_text.as_str());
    title.append(": ");
    title.append(code);
    title.append(" ");
    title.append(message);
    proof {
        reveal_strlit(":");
        reveal_strlit(": ");
        reveal_strlit(" ");
        assert(":"@ =~= seq![':']);
        assert(": "@ =~= seq![':', ' ']);
        assert(" "@ =~= seq![' ']);
        assert(title@ =~= title_spec(path@, line as int, col as int, code@, message@));
    }
    let mut out = render_snippet(
        title.as_str(),
        content.as_str(),
        start,
        off,
        span_end,
        term_width,
        code,
    );
    out.append("\n");
    proof {
        reveal_strlit("\n");
        assert("\n"@ =~= seq!['\n']);
        assert(out@ =~= spec_render_localized(path@, code@, message@, line as int, col as int,
        dv));
    }
    out
}

} // verus!
