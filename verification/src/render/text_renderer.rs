use crate::models::label_config::SerializableColor;
use crate::models::layout::{Alignment, TextRegion};
use crate::render::asset_manager::{Raster, SerializableRgbaImage};
use crate::utils::error::LabelError;
use vstd::prelude::*;
use vstd::string::{StrSliceExecFns, StringExecFns};

verus! {

/// How many characters a line break takes up at position `i` of `s`: one
/// for a line feed, two for a backslash followed by the letter n (a break
/// typed into a single-line field), zero where there is no break.
pub open spec fn break_len(s: Seq<char>, i: int) -> int {
    if 0 <= i < s.len() && s[i] == '\n' {
        1
    } else if 0 <= i && i + 1 < s.len() && s[i] == '\\' && s[i + 1] == 'n' {
        2
    } else {
        0
    }
}

/// The lines of `s` from `start` on, given that no break begins in
/// `start .. i`.
pub open spec fn split_from(s: Seq<char>, start: int, i: int) -> Seq<Seq<char>>
    decreases s.len() - i,
{
    if 0 <= start <= i < s.len() {
        if break_len(s, i) > 0 {
            seq![s.subrange(start, i)] + split_from(
                s,
                i + break_len(s, i),
                i + break_len(s, i),
            )
        } else {
            split_from(s, start, i + 1)
        }
    } else if 0 <= start <= s.len() {
        seq![s.subrange(start, s.len() as int)]
    } else {
        seq![]
    }
}

/// The lines of a text: what stands between its breaks, breaks left out.
/// A text without a break is one line, and so is the empty text.
pub open spec fn split_lines(s: Seq<char>) -> Seq<Seq<char>> {
    split_from(s, 0, 0)
}

/// The characters that trimming removes.
pub open spec fn is_whitespace(c: char) -> bool {
    let u = c as u32;
    ||| 0x09 <= u <= 0x0D
    ||| u == 0x20
    ||| u == 0x85
    ||| u == 0xA0
    ||| u == 0x1680
    ||| 0x2000 <= u <= 0x200A
    ||| u == 0x2028
    ||| u == 0x2029
    ||| u == 0x202F
    ||| u == 0x205F
    ||| u == 0x3000
}

/// A line with nothing to draw: empty, or white space only.
pub open spec fn is_blank(line: Seq<char>) -> bool {
    forall|i: int| 0 <= i < line.len() ==> is_whitespace(#[trigger] line[i])
}

/// Whether line `i` is left out: blank lines are, but only in a text of
/// more than one line.
pub open spec fn is_skipped(lines: Seq<Seq<char>>, i: int) -> bool {
    lines.len() > 1 && is_blank(lines[i])
}

/// How many of the first `n` lines are drawn.
pub open spec fn retained_before(lines: Seq<Seq<char>>, n: int) -> nat
    decreases n,
{
    if n <= 0 {
        0
    } else if is_skipped(lines, n - 1) {
        retained_before(lines, n - 1)
    } else {
        retained_before(lines, n - 1) + 1
    }
}

/// How many lines are drawn.
pub open spec fn retained_count(lines: Seq<Seq<char>>) -> nat {
    retained_before(lines, lines.len() as int)
}

/// The distance between the tops of two successive lines: the height of
/// the reference glyphs times the spacing, which is given in hundredths.
pub open spec fn line_height(glyph_height: u32, spacing_percent: u32) -> int {
    glyph_height * spacing_percent / 100
}

/// The height of a block of `count` lines.
pub open spec fn block_height(count: nat, glyph_height: u32, spacing_percent: u32) -> int {
    if count > 1 {
        (count - 1) * line_height(glyph_height, spacing_percent) + glyph_height
    } else {
        glyph_height as int
    }
}

/// Where a line `width` pixels wide starts in its region.
pub open spec fn aligned_x(region: TextRegion, width: u32) -> int {
    match region.alignment {
        Alignment::Left => region.x as int,
        Alignment::Center => region.x + region.max_width / 2 - width / 2,
        Alignment::Right => region.x + region.max_width - width,
        Alignment::CenterLeft => region.x as int,
    }
}

/// The top of line number `k` of a block of `count` lines that is centred
/// on the region's anchor height and then moved by `offset_y`.
pub open spec fn line_y(
    region: TextRegion,
    count: nat,
    k: nat,
    glyph_height: u32,
    spacing_percent: u32,
    offset_y: i32,
) -> int {
    region.y - block_height(count, glyph_height, spacing_percent) / 2 + k * line_height(
        glyph_height,
        spacing_percent,
    ) + offset_y
}

/// The nearest value that a coordinate can hold.
pub open spec fn saturate(v: int) -> i32 {
    if v < i32::MIN {
        i32::MIN
    } else if v > i32::MAX {
        i32::MAX
    } else {
        v as i32
    }
}

/// A line of a text with the place of its top-left corner on the canvas.
#[derive(Debug, Clone, Copy, PartialEq, Eq, Structural)]
pub struct PlacedLine {
    /// Which line of the text this is, counted from zero over all lines.
    pub line: usize,
    pub x: i32,
    pub y: i32,
}

/// The placements of the lines drawn among the first `n`, in order.
/// `widths[i]` is the measured width of line `i`.
pub open spec fn placed_before(
    lines: Seq<Seq<char>>,
    widths: Seq<u32>,
    glyph_height: u32,
    region: TextRegion,
    offset: (i32, i32),
    spacing_percent: u32,
    n: int,
) -> Seq<PlacedLine>
    decreases n,
{
    if n <= 0 {
        seq![]
    } else {
        let earlier = placed_before(
            lines,
            widths,
            glyph_height,
            region,
            offset,
            spacing_percent,
            n - 1,
        );
        if is_skipped(lines, n - 1) {
            earlier
        } else {
            earlier.push(
                PlacedLine {
                    line: (n - 1) as usize,
                    x: saturate(aligned_x(region, widths[n - 1]) + offset.0),
                    y: saturate(
                        line_y(
                            region,
                            retained_count(lines),
                            earlier.len(),
                            glyph_height,
                            spacing_percent,
                            offset.1,
                        ),
                    ),
                },
            )
        }
    }
}

/// Where each drawn line of a text goes.
pub open spec fn placed_lines(
    lines: Seq<Seq<char>>,
    widths: Seq<u32>,
    glyph_height: u32,
    region: TextRegion,
    offset: (i32, i32),
    spacing_percent: u32,
) -> Seq<PlacedLine> {
    placed_before(
        lines,
        widths,
        glyph_height,
        region,
        offset,
        spacing_percent,
        lines.len() as int,
    )
}

/// The lines as sequences of characters.
pub open spec fn lines_view(lines: Seq<&str>) -> Seq<Seq<char>> {
    lines.map_values(|line: &str| line@)
}

/// Whether trimming removes the character.
pub fn char_is_whitespace(c: char) -> (white: bool)
    ensures
        white == is_whitespace(c),
{
    let u: u32 = c as u32;
    (0x09 <= u && u <= 0x0D) || u == 0x20 || u == 0x85 || u == 0xA0 || u == 0x1680 || (0x2000 <= u
        && u <= 0x200A) || u == 0x2028 || u == 0x2029 || u == 0x202F || u == 0x205F || u == 0x3000
}

/// Whether a line has nothing to draw.
pub fn line_is_blank(line: &str) -> (blank: bool)
    ensures
        blank == is_blank(line@),
{
    let mut blank = true;
    for c in iter: line.chars()
        invariant
            iter.seq() == line@,
            blank == is_blank(line@.take(iter.index() as int)),
    {
        let ghost before = line@.take(iter.index() as int);
        let ghost after = line@.take(iter.index() + 1);
        proof {
            assert(after =~= before.push(c));
            if is_blank(before) && is_whitespace(c) {
                assert forall|i: int| 0 <= i < after.len() implies is_whitespace(
                    #[trigger] after[i],
                ) by {
                    if i < before.len() {
                        assert(after[i] == before[i]);
                    }
                }
            }
            if !is_whitespace(c) {
                assert(after[before.len() as int] == c);
            }
            if !is_blank(before) {
                let i = choose|i: int|
                    0 <= i < before.len() && !is_whitespace(#[trigger] before[i]);
                assert(after[i] == before[i]);
            }
        }
        if !char_is_whitespace(c) {
            blank = false;
        }
    }
    proof {
        assert(line@.take(line@.len() as int) =~= line@);
    }
    blank
}

/// Splits a text into its lines.
pub fn split_text(text: &str) -> (lines: Vec<&str>)
    ensures
        lines_view(lines@) == split_lines(text@),
        lines@.len() >= 1,
{
    let chars = chars_of(text);
    let n = chars.len();
    let mut lines: Vec<&str> = Vec::new();
    let mut start: usize = 0;
    let mut i: usize = 0;
    proof {
        assert(lines_view(lines@) + split_from(text@, 0, 0) =~= split_lines(text@));
    }
    while i < n
        invariant
            chars@ == text@,
            n == chars@.len(),
            start <= i <= n,
            split_lines(text@) == lines_view(lines@) + split_from(text@, start as int, i as int),
        decreases n - i,
    {
        let c = chars[i];
        let len: usize = if c == '\n' {
            1
        } else if c == '\\' && i + 1 < n && chars[i + 1] == 'n' {
            2
        } else {
            0
        };
        assert(len == break_len(text@, i as int));
        if len > 0 {
            let line = text.substring_char(start, i);
            proof {
                let before = lines_view(lines@);
                let rest = split_from(text@, i + len, i + len);
                assert(lines_view(lines@.push(line)) =~= before.push(line@));
                assert(before.push(line@) + rest =~= before + (seq![line@] + rest));
            }
            lines.push(line);
            i += len;
            start = i;
        } else {
            i += 1;
        }
    }
    let line = text.substring_char(start, n);
    proof {
        let before = lines_view(lines@);
        assert(lines_view(lines@.push(line)) =~= before.push(line@));
        assert(before.push(line@) =~= before + seq![line@]);
    }
    lines.push(line);
    lines
}

/// The characters of a text.
pub fn chars_of(text: &str) -> (chars: Vec<char>)
    ensures
        chars@ == text@,
{
    let mut chars: Vec<char> = Vec::new();
    for c in iter: text.chars()
        invariant
            iter.seq() == text@,
            chars@ == iter.seq().take(iter.index() as int),
    {
        chars.push(c);
    }
    chars
}

/// As many placements are made as lines are drawn, and each names a line
/// among the first `n` that is not left out.
pub proof fn lemma_placed_before(
    lines: Seq<Seq<char>>,
    widths: Seq<u32>,
    glyph_height: u32,
    region: TextRegion,
    offset: (i32, i32),
    spacing_percent: u32,
    n: int,
)
    requires
        0 <= n <= lines.len(),
        lines.len() <= usize::MAX,
    ensures
        placed_before(lines, widths, glyph_height, region, offset, spacing_percent, n).len()
            == retained_before(lines, n),
        retained_before(lines, n) <= n,
        forall|k: int|
            0 <= k < retained_before(lines, n) ==> (#[trigger] placed_before(
                lines,
                widths,
                glyph_height,
                region,
                offset,
                spacing_percent,
                n,
            )[k]).line < n && !is_skipped(
                lines,
                placed_before(
                    lines,
                    widths,
                    glyph_height,
                    region,
                    offset,
                    spacing_percent,
                    n,
                )[k].line as int,
            ),
    decreases n,
{
    if n > 0 {
        lemma_placed_before(lines, widths, glyph_height, region, offset, spacing_percent, n - 1);
    }
}

/// How many of the lines are drawn.
pub fn count_retained(lines: &Vec<&str>) -> (count: usize)
    ensures
        count == retained_count(lines_view(lines@)),
        count <= lines@.len(),
{
    let multi = lines.len() > 1;
    let mut count: usize = 0;
    for i in 0..lines.len()
        invariant
            multi == (lines@.len() > 1),
            count == retained_before(lines_view(lines@), i as int),
            count <= i,
    {
        let blank = line_is_blank(lines[i]);
        assert(lines_view(lines@)[i as int] == lines@[i as int]@);
        if !(multi && blank) {
            count += 1;
        }
    }
    count
}

/// No line height exceeds this: the largest height times the largest
/// spacing, over a hundred.
const STEP_LIMIT: u128 = 0x0400_0000_0000_0000;

/// No block's top lies farther from the origin than this.
const TOP_LIMIT: i128 = 0x0800_0000_0000_0000_0000_0000_0000_0000;

fn saturate_coordinate(v: i128) -> (c: i32)
    ensures
        c == saturate(v as int),
{
    if v < i32::MIN as i128 {
        i32::MIN
    } else if v > i32::MAX as i128 {
        i32::MAX
    } else {
        v as i32
    }
}

fn start_of_line(region: TextRegion, width: u32) -> (x: i128)
    ensures
        x == aligned_x(region, width),
{
    match region.alignment {
        Alignment::Left => region.x as i128,
        Alignment::Center => {
            region.x as i128 + (region.max_width / 2) as i128 - (width / 2) as i128
        },
        Alignment::Right => region.x as i128 + region.max_width as i128 - width as i128,
        Alignment::CenterLeft => region.x as i128,
    }
}

/// Places the lines of a text: blank lines of a text of several lines are
/// left out and take no room, the lines that remain are stacked one line
/// height apart, the block is centred on the region's anchor height, each
/// line is aligned in the region's span, and the offset is added to all.
pub fn layout_lines(
    lines: &Vec<&str>,
    widths: &Vec<u32>,
    glyph_height: u32,
    region: TextRegion,
    offset: (i32, i32),
    spacing_percent: u32,
) -> (placed: Vec<PlacedLine>)
    requires
        widths@.len() == lines@.len(),
    ensures
        placed@ == placed_lines(
            lines_view(lines@),
            widths@,
            glyph_height,
            region,
            offset,
            spacing_percent,
        ),
        placed@.len() == retained_count(lines_view(lines@)),
        forall|k: int|
            0 <= k < placed@.len() ==> (#[trigger] placed@[k]).line < lines@.len() && !is_skipped(
                lines_view(lines@),
                placed@[k].line as int,
            ),
{
    let ghost texts = lines_view(lines@);
    let count = count_retained(lines);
    let multi = lines.len() > 1;
    assert(0 <= glyph_height * spacing_percent <= 0xFFFF_FFFF * 0xFFFF_FFFF) by (nonlinear_arith)
        requires
            0 <= glyph_height <= 0xFFFF_FFFF,
            0 <= spacing_percent <= 0xFFFF_FFFF,
    ;
    let step: u128 = (glyph_height as u128) * (spacing_percent as u128) / 100;
    assert(step == line_height(glyph_height, spacing_percent));
    assert(step <= STEP_LIMIT);
    let block: u128 = if count > 1 {
        assert(0 <= (count - 1) * step <= 0xFFFF_FFFF_FFFF_FFFF * STEP_LIMIT) by (nonlinear_arith)
            requires
                0 <= count - 1 <= 0xFFFF_FFFF_FFFF_FFFF,
                0 <= step <= STEP_LIMIT,
        ;
        (count as u128 - 1) * step + glyph_height as u128
    } else {
        glyph_height as u128
    };
    assert(block == block_height(count as nat, glyph_height, spacing_percent));
    let top: i128 = region.y as i128 - (block / 2) as i128 + offset.1 as i128;
    let mut placed: Vec<PlacedLine> = Vec::new();
    for i in 0..lines.len()
        invariant
            texts == lines_view(lines@),
            widths@.len() == lines@.len(),
            multi == (lines@.len() > 1),
            count == retained_count(texts),
            step == line_height(glyph_height, spacing_percent),
            step <= STEP_LIMIT,
            top == region.y - block_height(count as nat, glyph_height, spacing_percent) / 2
                + offset.1,
            -TOP_LIMIT <= top <= TOP_LIMIT,
            placed@ == placed_before(
                texts,
                widths@,
                glyph_height,
                region,
                offset,
                spacing_percent,
                i as int,
            ),
            placed@.len() == retained_before(texts, i as int),
            placed@.len() <= i,
            forall|k: int| 0 <= k < placed@.len() ==> (#[trigger] placed@[k]).line < i,
    {
        let blank = line_is_blank(lines[i]);
        assert(texts[i as int] == lines@[i as int]@);
        if !(multi && blank) {
            let k = placed.len();
            assert(0 <= k * step <= 0xFFFF_FFFF_FFFF_FFFF * STEP_LIMIT) by (nonlinear_arith)
                requires
                    0 <= k <= 0xFFFF_FFFF_FFFF_FFFF,
                    0 <= step <= STEP_LIMIT,
            ;
            let x = start_of_line(region, widths[i]) + offset.0 as i128;
            let y = top + ((k as u128) * step) as i128;
            placed.push(
                PlacedLine { line: i, x: saturate_coordinate(x), y: saturate_coordinate(y) },
            );
        }
    }
    proof {
        lemma_placed_before(
            texts,
            widths@,
            glyph_height,
            region,
            offset,
            spacing_percent,
            texts.len() as int,
        );
    }
    placed
}

/// Placing a text that ends in one more blank line gives what placing the
/// text without that line gives: a blank last line is not drawn and adds
/// no height to the block. This does not hold of a text that consists of
/// one blank line alone, since a text of one line is always drawn.
pub proof fn lemma_trailing_blank_line_takes_no_room(
    lines: Seq<Seq<char>>,
    widths: Seq<u32>,
    blank: Seq<char>,
    blank_width: u32,
    glyph_height: u32,
    region: TextRegion,
    offset: (i32, i32),
    spacing_percent: u32,
)
    requires
        lines.len() >= 1,
        widths.len() == lines.len(),
        is_blank(blank),
        lines.len() == 1 ==> !is_blank(lines[0]),
    ensures
        placed_lines(
            lines.push(blank),
            widths.push(blank_width),
            glyph_height,
            region,
            offset,
            spacing_percent,
        ) == placed_lines(lines, widths, glyph_height, region, offset, spacing_percent),
        retained_count(lines.push(blank)) == retained_count(lines),
{
    let longer = lines.push(blank);
    let longer_widths = widths.push(blank_width);
    lemma_same_lines_before(lines, longer, lines.len() as int);
    assert(is_skipped(longer, lines.len() as int));
    assert(retained_count(longer) == retained_count(lines));
    lemma_same_placements_before(
        lines,
        widths,
        longer,
        longer_widths,
        glyph_height,
        region,
        offset,
        spacing_percent,
        lines.len() as int,
    );
}

/// How a line sits in its region: a left-aligned line starts at the
/// region's left edge, a right-aligned line ends at its right edge, and
/// the gaps on either side of a centred line differ by a pixel at most.
pub proof fn lemma_alignment(region: TextRegion, width: u32)
    ensures
        region.alignment == Alignment::Left || region.alignment == Alignment::CenterLeft
            ==> aligned_x(region, width) == region.x,
        region.alignment == Alignment::Right ==> aligned_x(region, width) + width == region.x
            + region.max_width,
        region.alignment == Alignment::Center ==> ({
            let left_gap = aligned_x(region, width) - region.x;
            let right_gap = region.x + region.max_width - (aligned_x(region, width) + width);
            -1 <= left_gap - right_gap <= 1
        }),
{
}

/// How lines are stacked: the block's middle lies on the region's anchor
/// height moved by the offset, and each line starts one line height below
/// the line before it.
pub proof fn lemma_stacking(
    region: TextRegion,
    count: nat,
    k: nat,
    glyph_height: u32,
    spacing_percent: u32,
    offset_y: i32,
)
    ensures
        line_y(region, count, 0, glyph_height, spacing_percent, offset_y) + block_height(
            count,
            glyph_height,
            spacing_percent,
        ) / 2 == region.y + offset_y,
        line_y(region, count, k + 1, glyph_height, spacing_percent, offset_y) - line_y(
            region,
            count,
            k,
            glyph_height,
            spacing_percent,
            offset_y,
        ) == line_height(glyph_height, spacing_percent),
        count >= 1 ==> line_y(
            region,
            count,
            (count - 1) as nat,
            glyph_height,
            spacing_percent,
            offset_y,
        ) + glyph_height - line_y(region, count, 0, glyph_height, spacing_percent, offset_y)
            == block_height(count, glyph_height, spacing_percent),
{
    let step = line_height(glyph_height, spacing_percent);
    assert((k + 1) * step == k * step + step) by (nonlinear_arith);
    assert(0 * step == 0);
    if count >= 1 {
        assert((count - 1) * step == ((count - 1) as nat) * step);
    }
}

/// The break that is typed as a backslash and the letter n.
pub open spec fn typed_break() -> Seq<char> {
    seq!['\\', 'n']
}

/// A text with a typed break at its end has the lines of the text without
/// it, and one empty line after them.
pub proof fn lemma_split_trailing_break(text: Seq<char>)
    ensures
        split_lines(text + typed_break()) == split_lines(text).push(Seq::<char>::empty()),
{
    lemma_split_from_trailing_break(text, 0, 0);
}

/// The same from any place in the text on.
pub proof fn lemma_split_from_trailing_break(text: Seq<char>, start: int, i: int)
    requires
        0 <= start <= i <= text.len(),
    ensures
        split_from(text + typed_break(), start, i) == split_from(text, start, i).push(
            Seq::<char>::empty(),
        ),
    decreases text.len() - i,
{
    let longer = text + typed_break();
    assert(longer.len() == text.len() + 2);
    assert(longer[text.len() as int] == '\\');
    assert(longer[text.len() as int + 1] == 'n');
    if i < text.len() {
        assert(longer[i] == text[i]);
        if i + 1 < text.len() {
            assert(longer[i + 1] == text[i + 1]);
        }
        assert(break_len(longer, i) == break_len(text, i));
        let len = break_len(text, i);
        if len > 0 {
            lemma_split_from_trailing_break(text, i + len, i + len);
            assert(longer.subrange(start, i) =~= text.subrange(start, i));
            assert(seq![text.subrange(start, i)] + split_from(text, i + len, i + len).push(
                Seq::<char>::empty(),
            ) =~= (seq![text.subrange(start, i)] + split_from(text, i + len, i + len)).push(
                Seq::<char>::empty(),
            ));
        } else {
            lemma_split_from_trailing_break(text, start, i + 1);
        }
    } else {
        assert(break_len(longer, i) == 2);
        assert(longer.subrange(start, i) =~= text.subrange(start, text.len() as int));
        assert(longer.subrange(i + 2, longer.len() as int) =~= Seq::<char>::empty());
        assert(split_from(longer, i + 2, i + 2) =~= seq![Seq::<char>::empty()]);
        assert(seq![text.subrange(start, text.len() as int)] + seq![Seq::<char>::empty()]
            =~= seq![text.subrange(start, text.len() as int)].push(Seq::<char>::empty()));
    }
}

/// A typed break at the end of a text moves nothing and draws nothing:
/// the text is placed as it is without the break. This does not hold of
/// a text that is one blank line, which is drawn alone and left out once
/// a second line follows.
pub proof fn lemma_trailing_break_takes_no_room(
    text: Seq<char>,
    widths: Seq<u32>,
    extra_width: u32,
    glyph_height: u32,
    region: TextRegion,
    offset: (i32, i32),
    spacing_percent: u32,
)
    requires
        widths.len() == split_lines(text).len(),
        split_lines(text).len() == 1 ==> !is_blank(split_lines(text)[0]),
    ensures
        placed_lines(
            split_lines(text + typed_break()),
            widths.push(extra_width),
            glyph_height,
            region,
            offset,
            spacing_percent,
        ) == placed_lines(split_lines(text), widths, glyph_height, region, offset, spacing_percent),
{
    lemma_split_trailing_break(text);
    lemma_split_never_empty(text, 0, 0);
    lemma_trailing_blank_line_takes_no_room(
        split_lines(text),
        widths,
        Seq::<char>::empty(),
        extra_width,
        glyph_height,
        region,
        offset,
        spacing_percent,
    );
}

/// Every text has one line at least.
pub proof fn lemma_split_never_empty(text: Seq<char>, start: int, i: int)
    requires
        0 <= start <= i <= text.len(),
    ensures
        split_from(text, start, i).len() >= 1,
    decreases text.len() - i,
{
    if i < text.len() && break_len(text, i) == 0 {
        lemma_split_never_empty(text, start, i + 1);
    }
}

/// Two texts that agree on which of their first `n` lines are drawn draw
/// equally many of them.
pub proof fn lemma_same_lines_before(a: Seq<Seq<char>>, b: Seq<Seq<char>>, n: int)
    requires
        0 <= n <= a.len(),
        n <= b.len(),
        forall|i: int| 0 <= i < n ==> is_skipped(a, i) == is_skipped(b, i),
    ensures
        retained_before(a, n) == retained_before(b, n),
    decreases n,
{
    if n > 0 {
        lemma_same_lines_before(a, b, n - 1);
    }
}

/// Two texts that draw equally many lines in all, and agree on their
/// first `n` lines as to which are drawn and how wide they are, place
/// those lines alike.
pub proof fn lemma_same_placements_before(
    a: Seq<Seq<char>>,
    a_widths: Seq<u32>,
    b: Seq<Seq<char>>,
    b_widths: Seq<u32>,
    glyph_height: u32,
    region: TextRegion,
    offset: (i32, i32),
    spacing_percent: u32,
    n: int,
)
    requires
        0 <= n <= a.len(),
        n <= b.len(),
        retained_count(a) == retained_count(b),
        forall|i: int| 0 <= i < n ==> is_skipped(a, i) == is_skipped(b, i),
        forall|i: int| 0 <= i < n && !is_skipped(a, i) ==> a_widths[i] == b_widths[i],
    ensures
        placed_before(a, a_widths, glyph_height, region, offset, spacing_percent, n)
            == placed_before(b, b_widths, glyph_height, region, offset, spacing_percent, n),
    decreases n,
{
    if n > 0 {
        lemma_same_placements_before(
            a,
            a_widths,
            b,
            b_widths,
            glyph_height,
            region,
            offset,
            spacing_percent,
            n - 1,
        );
    }
}


/// Whether `rusttype::Font::try_from_bytes` accepts the data as a font.
pub uninterp spec fn font_is_valid(font_data: Seq<u8>) -> bool;

/// The width and the height that `imageproc::drawing::text_size` gives for
/// a text set on one line in the font of `font_data`, at a uniform scale
/// of `font_size` pixels.
pub uninterp spec fn text_extent(font_data: Seq<u8>, font_size: u16, text: Seq<char>) -> (
    int,
    int,
);

/// The bytes of a canvas of `width` by `height` pixels after
/// `imageproc::drawing::draw_text_mut` has drawn one line of text on it in
/// the font of `font_data`, at a uniform scale of `font_size` pixels, in
/// the colour given by its four channels, the line's corner at `(x, y)`.
pub uninterp spec fn drawn_text(
    pixels: Seq<u8>,
    width: nat,
    height: nat,
    font_data: Seq<u8>,
    font_size: u16,
    red: u8,
    green: u8,
    blue: u8,
    opacity: u8,
    x: int,
    y: int,
    text: Seq<char>,
) -> Seq<u8>;

/// The glyph that `owned_ttf_parser::Face::glyph_index` finds for a
/// character in the font of `font_data`, by its number.
pub uninterp spec fn glyph_index_of(font_data: Seq<u8>, c: char) -> Option<u16>;

/// What `owned_ttf_parser::Face::number_of_glyphs` gives for the font of
/// `font_data`.
pub uninterp spec fn glyph_count_of(font_data: Seq<u8>) -> u16;

/// What `owned_ttf_parser::Face::glyph_hor_advance` gives for a glyph of
/// the font of `font_data`.
pub uninterp spec fn advance_of(font_data: Seq<u8>, glyph: u16) -> Option<u16>;

/// What `owned_ttf_parser::Face::glyph_hor_side_bearing` gives for a glyph
/// of the font of `font_data`.
pub uninterp spec fn side_bearing_of(font_data: Seq<u8>, glyph: u16) -> Option<i16>;

/// What `owned_ttf_parser::Face::glyph_bounding_box` gives for a glyph of
/// the font of `font_data`: the least and the greatest `x` and `y` of the
/// glyph's outline in font units, in the order `x_min`, `y_min`, `x_max`,
/// `y_max`, or nothing for a glyph without an outline.
pub uninterp spec fn bounding_box_of(font_data: Seq<u8>, glyph: u16) -> Option<
    (i16, i16, i16, i16),
>;

/// What `owned_ttf_parser::Face::ascender` gives for the font of
/// `font_data`.
pub uninterp spec fn ascender_of(font_data: Seq<u8>) -> i16;

/// What `owned_ttf_parser::Face::descender` gives for the font of
/// `font_data`.
pub uninterp spec fn descender_of(font_data: Seq<u8>) -> i16;

/// The glyph that stands for a character in a font: the one its character
/// map names, or glyph 0 where it names none.
pub open spec fn glyph_for(font_data: Seq<u8>, c: char) -> u16 {
    match glyph_index_of(font_data, c) {
        Some(glyph) => glyph,
        None => 0,
    }
}

/// Whether the box of a glyph's outline can be turned into pixels: the
/// layout negates both of its `y` bounds in 16 bits, which the least
/// 16-bit number does not allow, and takes its width and height as the
/// differences of its bounds.
pub open spec fn sound_box(bounds: Option<(i16, i16, i16, i16)>) -> bool {
    bounds is Some ==> {
        let (x_min, y_min, x_max, y_max) = bounds->0;
        &&& x_min <= x_max
        &&& y_min <= y_max
        &&& y_min > i16::MIN
        &&& y_max > i16::MIN
    }
}

/// Whether a character can be set in a font: the glyph that stands for it
/// is one the font holds, the font gives an advance and a side bearing
/// for it, and the box of its outline, if it has one, is sound.
pub open spec fn usable(font_data: Seq<u8>, c: char) -> bool {
    let glyph = glyph_for(font_data, c);
    &&& glyph < glyph_count_of(font_data)
    &&& advance_of(font_data, glyph) is Some
    &&& side_bearing_of(font_data, glyph) is Some
    &&& sound_box(bounding_box_of(font_data, glyph))
}

/// Whether every character of a text can be set in a font.
pub open spec fn measurable(font_data: Seq<u8>, text: Seq<char>) -> bool {
    forall|i: int| 0 <= i < text.len() ==> usable(font_data, #[trigger] text[i])
}

/// The farthest from its corner, in pixels, that any part of a line may
/// be placed.
pub const LINE_REACH: u64 = 0x2000_0000;

/// The most font units by which one character can move a place in a
/// line: the largest advance and the largest kerning together.
pub const UNITS_PER_CHARACTER: u64 = 98304;

/// Whether a line of `length` characters set at `font_size` stays within
/// reach. A font's coordinates are 16-bit numbers of font units, of which
/// `ascender - descender` make up `font_size` pixels. So no glyph is
/// larger than 16384 pixels a side where four times the font size is at
/// most that height, and no part of the line lies farther than
/// `LINE_REACH` pixels from its corner where the characters, each at
/// `UNITS_PER_CHARACTER` units, do not add up to more.
pub open spec fn within_reach(font_data: Seq<u8>, font_size: u16, length: nat) -> bool {
    let height = ascender_of(font_data) - descender_of(font_data);
    &&& font_size >= 1
    &&& height >= 1
    &&& 4 * font_size <= height
    &&& (length + 1) * UNITS_PER_CHARACTER * font_size <= LINE_REACH * height
}

/// Whether a text can be set on one line in a font at a size: every
/// character can be set, and the line stays within reach.
pub open spec fn settable(font_data: Seq<u8>, font_size: u16, text: Seq<char>) -> bool {
    measurable(font_data, text) && within_reach(font_data, font_size, text.len())
}

/// `owned_ttf_parser::Face::glyph_index` on the face that
/// `owned_ttf_parser::Face::from_slice` reads from `font_data`, which is
/// the face that `rusttype` reads from it: the number of the glyph that
/// the font's character map names for a character, if it names one.
#[verifier::external_body]
fn glyph_index(font_data: &Vec<u8>, c: char) -> (glyph: Option<u16>)
    requires
        font_is_valid(font_data@),
    ensures
        glyph == glyph_index_of(font_data@, c),
{
    owned_ttf_parser::Face::from_slice(font_data, 0).unwrap().glyph_index(c).map(|g| g.0)
}

/// `owned_ttf_parser::Face::number_of_glyphs` on the face read from
/// `font_data`: how many glyphs the font holds.
#[verifier::external_body]
fn glyph_count(font_data: &Vec<u8>) -> (count: u16)
    requires
        font_is_valid(font_data@),
    ensures
        count == glyph_count_of(font_data@),
{
    owned_ttf_parser::Face::from_slice(font_data, 0).unwrap().number_of_glyphs()
}

/// `owned_ttf_parser::Face::glyph_hor_advance` on the face read from
/// `font_data`: the advance of a glyph in font units, if the font's
/// horizontal metrics give one.
#[verifier::external_body]
fn glyph_advance(font_data: &Vec<u8>, glyph: u16) -> (advance: Option<u16>)
    requires
        font_is_valid(font_data@),
    ensures
        advance == advance_of(font_data@, glyph),
{
    let face = owned_ttf_parser::Face::from_slice(font_data, 0).unwrap();
    face.glyph_hor_advance(owned_ttf_parser::GlyphId(glyph))
}

/// `owned_ttf_parser::Face::glyph_hor_side_bearing` on the face read from
/// `font_data`: the left side bearing of a glyph in font units, if the
/// font's horizontal metrics give one.
#[verifier::external_body]
fn glyph_side_bearing(font_data: &Vec<u8>, glyph: u16) -> (bearing: Option<i16>)
    requires
        font_is_valid(font_data@),
    ensures
        bearing == side_bearing_of(font_data@, glyph),
{
    let face = owned_ttf_parser::Face::from_slice(font_data, 0).unwrap();
    face.glyph_hor_side_bearing(owned_ttf_parser::GlyphId(glyph))
}

/// `owned_ttf_parser::Face::glyph_bounding_box` on the face read from
/// `font_data`: the bounds of a glyph's outline in font units, if the
/// glyph has an outline.
#[verifier::external_body]
fn glyph_bounding_box(font_data: &Vec<u8>, glyph: u16) -> (bounds: Option<(i16, i16, i16, i16)>)
    requires
        font_is_valid(font_data@),
    ensures
        bounds == bounding_box_of(font_data@, glyph),
{
    let face = owned_ttf_parser::Face::from_slice(font_data, 0).unwrap();
    let bounds = face.glyph_bounding_box(owned_ttf_parser::GlyphId(glyph));
    bounds.map(|b| (b.x_min, b.y_min, b.x_max, b.y_max))
}

/// `owned_ttf_parser::Face::ascender` on the face read from `font_data`:
/// how far above the baseline the font reaches, in font units.
#[verifier::external_body]
fn font_ascender(font_data: &Vec<u8>) -> (ascender: i16)
    requires
        font_is_valid(font_data@),
    ensures
        ascender == ascender_of(font_data@),
{
    owned_ttf_parser::Face::from_slice(font_data, 0).unwrap().ascender()
}

/// `owned_ttf_parser::Face::descender` on the face read from `font_data`:
/// how far below the baseline the font reaches, in font units, as a
/// negative number.
#[verifier::external_body]
fn font_descender(font_data: &Vec<u8>) -> (descender: i16)
    requires
        font_is_valid(font_data@),
    ensures
        descender == descender_of(font_data@),
{
    owned_ttf_parser::Face::from_slice(font_data, 0).unwrap().descender()
}

/// A line is handed to the rasteriser only if both coordinates of its
/// corner lie this close to the origin; no canvas reaches farther.
pub const DRAW_LIMIT: i32 = 0x4000_0000;

/// Whether a line placed at `(x, y)` is handed to the rasteriser.
pub open spec fn drawable(x: i32, y: i32) -> bool {
    -DRAW_LIMIT <= x <= DRAW_LIMIT && -DRAW_LIMIT <= y <= DRAW_LIMIT
}

/// `rusttype::Font::try_from_bytes`: whether the parser accepts the data
/// as a font. The answer is a function of the data alone and goes by the
/// name `font_is_valid`; nothing is claimed about which data is accepted.
#[verifier::external_body]
fn font_parses(font_data: &Vec<u8>) -> (accepted: bool)
    ensures
        accepted == font_is_valid(font_data@),
{
    rusttype::Font::try_from_bytes(font_data).is_some()
}

/// `imageproc::drawing::text_size` at a uniform scale of `font_size`
/// pixels, on the font that `rusttype::Font::try_from_bytes` reads from
/// `font_data`: the width and height of the text set on one line. The
/// layout is arithmetic on the font's tables, the same for the same
/// data, size and text, and goes by the name `text_extent`. Both numbers
/// are the largest right and bottom edge among the glyphs' bounding boxes,
/// counted from zero, so neither is negative.
///
/// The layout stops the program where the glyph that stands for a
/// character is not one the font holds, has no advance or side bearing,
/// or has an outline whose box it cannot negate in 16 bits, and it adds
/// places in the line in 32 bits. The text must therefore be `settable`:
/// `measurable` leaves out the first three, and `within_reach` keeps
/// every place in the line below 2^29 pixels.
#[verifier::external_body]
fn measure_text(font_data: &Vec<u8>, font_size: u16, text: &str) -> (size: (i32, i32))
    requires
        font_is_valid(font_data@),
        settable(font_data@, font_size, text@),
    ensures
        size.0 == text_extent(font_data@, font_size, text@).0,
        size.1 == text_extent(font_data@, font_size, text@).1,
        size.0 >= 0,
        size.1 >= 0,
{
    let font = rusttype::Font::try_from_bytes(font_data).unwrap();
    imageproc::drawing::text_size(rusttype::Scale::uniform(font_size.into()), &font, text)
}

/// `imageproc::drawing::draw_text_mut` at a uniform scale of `font_size`
/// pixels, on the font that `rusttype::Font::try_from_bytes` reads from
/// `font_data`: blends the glyphs of one line of text into the canvas,
/// the line's corner at `(x, y)`; what falls off the canvas is left out.
/// Rasterising and blending are arithmetic on the font's tables and the
/// canvas, the same for the same arguments, and the bytes that result go
/// by the name `drawn_text`. The canvas keeps its size and its buffer's
/// length, and an empty text draws nothing. The call writes only inside
/// the boxes of the glyphs, whose right and bottom edges are what the
/// text's extent is the greatest of, so every pixel at or right of
/// `x` plus the width, or at or below `y` plus the height, stays.
///
/// As for `measure_text`, the text must be `settable`. The call adds a
/// glyph's place in the line, which is then below 2^29 pixels, to `x` and
/// `y` in 32 bits, which is why the corner must be `drawable`.
#[verifier::external_body]
fn draw_line(
    font_data: &Vec<u8>,
    canvas: &mut SerializableRgbaImage,
    color: SerializableColor,
    x: i32,
    y: i32,
    font_size: u16,
    text: &str,
)
    requires
        font_is_valid(font_data@),
        settable(font_data@, font_size, text@),
        old(canvas).wf(),
        drawable(x, y),
    ensures
        final(canvas).pixels@ == drawn_text(
            old(canvas).pixels@,
            old(canvas).width as nat,
            old(canvas).height as nat,
            font_data@,
            font_size,
            color.r,
            color.g,
            color.b,
            color.a,
            x as int,
            y as int,
            text@,
        ),
        final(canvas).wf(),
        final(canvas)@.same_size(old(canvas)@),
        text@.len() == 0 ==> final(canvas)@ == old(canvas)@,
        forall|px: int, py: int, c: int|
            old(canvas)@.contains(px, py) && 0 <= c < 4 && beyond_line(
                font_data@,
                font_size,
                text@,
                x,
                y,
                px,
                py,
            ) ==> #[trigger] final(canvas)@.channel(px, py, c) == old(canvas)@.channel(px, py, c),
{
    let font = rusttype::Font::try_from_bytes(font_data).unwrap();
    let pixels = std::mem::take(&mut canvas.pixels);
    let mut buffer = image::RgbaImage::from_raw(canvas.width, canvas.height, pixels).unwrap();
    let ink = image::Rgba([color.r, color.g, color.b, color.a]);
    let scale = rusttype::Scale::uniform(font_size.into());
    imageproc::drawing::draw_text_mut(&mut buffer, ink, x, y, scale, &font, text);
    canvas.pixels = buffer.into_raw();
}

/// Whether the pixel `(px, py)` lies beyond a line of text whose corner is
/// at `(x, y)`: at or right of the line's right edge, or at or below its
/// bottom edge.
pub open spec fn beyond_line(
    font_data: Seq<u8>,
    font_size: u16,
    text: Seq<char>,
    x: i32,
    y: i32,
    px: int,
    py: int,
) -> bool {
    px >= x + text_extent(font_data, font_size, text).0 || py >= y + text_extent(
        font_data,
        font_size,
        text,
    ).1
}

/// Whether the pixel `(px, py)` lies beyond every one of the first `n`
/// placed lines.
pub open spec fn beyond_lines(
    font_data: Seq<u8>,
    font_size: u16,
    lines: Seq<Seq<char>>,
    placed: Seq<PlacedLine>,
    n: int,
    px: int,
    py: int,
) -> bool {
    forall|k: int|
        0 <= k < n ==> beyond_line(
            font_data,
            font_size,
            lines[(#[trigger] placed[k]).line as int],
            placed[k].x,
            placed[k].y,
            px,
            py,
        )
}

/// A canvas after one line of text is drawn on it, the line's corner at
/// `(x, y)`.
pub open spec fn drawn(
    canvas: Raster,
    font_data: Seq<u8>,
    color: SerializableColor,
    x: i32,
    y: i32,
    font_size: u16,
    text: Seq<char>,
) -> Raster {
    Raster {
        width: canvas.width,
        height: canvas.height,
        pixels: drawn_text(
            canvas.pixels,
            canvas.width,
            canvas.height,
            font_data,
            font_size,
            color.r,
            color.g,
            color.b,
            color.a,
            x as int,
            y as int,
            text,
        ),
    }
}

/// The height of the glyphs that lines are spaced by: that of the text
/// `Hg`.
pub open spec fn reference_height(font_data: Seq<u8>, font_size: u16) -> u32 {
    text_extent(font_data, font_size, "Hg"@).1 as u32
}

/// The widths of the lines of a text as they are measured: each line
/// that is drawn has its own width, and a line that is left out counts
/// as zero wide.
pub open spec fn measured_widths(
    font_data: Seq<u8>,
    font_size: u16,
    lines: Seq<Seq<char>>,
) -> Seq<u32> {
    Seq::new(
        lines.len(),
        |i: int|
            if is_skipped(lines, i) {
                0u32
            } else {
                text_extent(font_data, font_size, lines[i]).0 as u32
            },
    )
}

/// Where each drawn line of a text goes when the text is set in a font.
pub open spec fn text_placements(
    font_data: Seq<u8>,
    font_size: u16,
    text: Seq<char>,
    region: TextRegion,
    offset: (i32, i32),
    spacing_percent: u32,
) -> Seq<PlacedLine> {
    placed_lines(
        split_lines(text),
        measured_widths(font_data, font_size, split_lines(text)),
        reference_height(font_data, font_size),
        region,
        offset,
        spacing_percent,
    )
}

/// A canvas after the first `n` of the placed lines are drawn on it, one
/// after the other. A line whose place is not `drawable` is passed over.
pub open spec fn drawn_lines(
    canvas: Raster,
    font_data: Seq<u8>,
    color: SerializableColor,
    font_size: u16,
    lines: Seq<Seq<char>>,
    placed: Seq<PlacedLine>,
    n: int,
) -> Raster
    decreases n,
{
    if n <= 0 {
        canvas
    } else {
        let earlier = drawn_lines(canvas, font_data, color, font_size, lines, placed, n - 1);
        let at = placed[n - 1];
        if drawable(at.x, at.y) {
            drawn(earlier, font_data, color, at.x, at.y, font_size, lines[at.line as int])
        } else {
            earlier
        }
    }
}

/// Whether every line that is drawn can be set in a font at a size.
/// Lines that are left out are not asked, nor are the breaks between the
/// lines.
pub open spec fn lines_settable(
    font_data: Seq<u8>,
    font_size: u16,
    lines: Seq<Seq<char>>,
) -> bool {
    forall|i: int|
        0 <= i < lines.len() && !is_skipped(lines, i) ==> settable(
            font_data,
            font_size,
            #[trigger] lines[i],
        )
}

/// Whether a text is drawn at all in a font at a size: it is not empty,
/// and the reference glyphs and every line of it that is drawn can be
/// set.
pub open spec fn renders(font_data: Seq<u8>, font_size: u16, text: Seq<char>) -> bool {
    &&& text.len() > 0
    &&& settable(font_data, font_size, "Hg"@)
    &&& lines_settable(font_data, font_size, split_lines(text))
}

/// Whether drawing a text into a region leaves the pixel `(px, py)`
/// alone for certain: the text is not drawn at all, or the pixel lies
/// beyond every line of it that is placed. Nothing is said of the pixels
/// inside a line's box that no glyph covers.
pub open spec fn beyond_text(
    font_data: Seq<u8>,
    text: Seq<char>,
    region: TextRegion,
    font_size: u16,
    offset: (i32, i32),
    spacing_percent: u32,
    px: int,
    py: int,
) -> bool {
    let placed = text_placements(font_data, font_size, text, region, offset, spacing_percent);
    !renders(font_data, font_size, text) || beyond_lines(
        font_data,
        font_size,
        split_lines(text),
        placed,
        placed.len() as int,
        px,
        py,
    )
}

/// A canvas after a text is drawn into a region: a text that is empty or
/// cannot be set in the font leaves it as it is, and of any other text
/// each line that is placed is drawn at its place.
pub open spec fn rendered_text(
    canvas: Raster,
    font_data: Seq<u8>,
    text: Seq<char>,
    region: TextRegion,
    color: SerializableColor,
    font_size: u16,
    offset: (i32, i32),
    spacing_percent: u32,
) -> Raster {
    if !renders(font_data, font_size, text) {
        canvas
    } else {
        let placed = text_placements(font_data, font_size, text, region, offset, spacing_percent);
        drawn_lines(
            canvas,
            font_data,
            color,
            font_size,
            split_lines(text),
            placed,
            placed.len() as int,
        )
    }
}

/// The offsets at which an outline is drawn around a text: every step of
/// at most two pixels in each direction, but for no step at all.
pub open spec fn spec_stroke_offsets() -> Seq<(i32, i32)> {
    Seq::new(
        24,
        |k: int|
            {
                let j = if k < 12 {
                    k
                } else {
                    k + 1
                };
                ((j / 5 - 2) as i32, (j % 5 - 2) as i32)
            },
    )
}

/// The offsets at which an outline is drawn around a text.
pub fn stroke_offsets() -> (offsets: Vec<(i32, i32)>)
    ensures
        offsets@ == spec_stroke_offsets(),
{
    let mut offsets: Vec<(i32, i32)> = Vec::new();
    let mut dx: i32 = -2;
    while dx <= 2
        invariant
            -2 <= dx <= 3,
            offsets@.len() == (if dx <= 0 {
                (dx + 2) * 5
            } else {
                (dx + 2) * 5 - 1
            }),
            forall|k: int| 0 <= k < offsets@.len() ==> offsets@[k] == spec_stroke_offsets()[k],
        decreases 3 - dx,
    {
        let mut dy: i32 = -2;
        while dy <= 2
            invariant
                -2 <= dx <= 2,
                -2 <= dy <= 3,
                offsets@.len() == (dx + 2) * 5 + (dy + 2) - (if dx > 0 || (dx == 0 && dy > 0) {
                    1int
                } else {
                    0int
                }),
                forall|k: int| 0 <= k < offsets@.len() ==> offsets@[k] == spec_stroke_offsets()[k],
            decreases 3 - dy,
        {
            if dx != 0 || dy != 0 {
                offsets.push((dx, dy));
            }
            dy += 1;
        }
        dx += 1;
    }
    assert(offsets@ =~= spec_stroke_offsets());
    offsets
}

/// Where a text drawn with an outline goes: aligned in its region like any
/// line, centred on the anchor height by its own height, moved by the
/// offset.
pub open spec fn stroke_origin(
    region: TextRegion,
    width: u32,
    height: u32,
    offset: (i32, i32),
) -> (i32, i32) {
    (
        saturate(aligned_x(region, width) + offset.0),
        saturate(region.y - height / 2 + offset.1),
    )
}

/// Drawing placed lines depends on a text's lines only through the lines
/// that the placements name.
pub proof fn lemma_drawn_lines_of_same_lines(
    canvas: Raster,
    font_data: Seq<u8>,
    color: SerializableColor,
    font_size: u16,
    lines: Seq<Seq<char>>,
    others: Seq<Seq<char>>,
    placed: Seq<PlacedLine>,
    n: int,
)
    requires
        0 <= n <= placed.len(),
        forall|k: int|
            0 <= k < n ==> lines[(#[trigger] placed[k]).line as int]
                == others[placed[k].line as int],
    ensures
        drawn_lines(canvas, font_data, color, font_size, lines, placed, n) == drawn_lines(
            canvas,
            font_data,
            color,
            font_size,
            others,
            placed,
            n,
        ),
    decreases n,
{
    if n > 0 {
        lemma_drawn_lines_of_same_lines(
            canvas,
            font_data,
            color,
            font_size,
            lines,
            others,
            placed,
            n - 1,
        );
        assert(lines[placed[n - 1].line as int] == others[placed[n - 1].line as int]);
    }
}

/// A text with a typed break at its end is rendered as the text without
/// it: the empty line after the break is not drawn and moves nothing.
/// This does not hold of a text that is one blank line, which is drawn
/// alone and left out once a second line follows.
pub proof fn lemma_trailing_break_renders_alike(
    canvas: Raster,
    font_data: Seq<u8>,
    text: Seq<char>,
    region: TextRegion,
    color: SerializableColor,
    font_size: u16,
    offset: (i32, i32),
    spacing_percent: u32,
)
    requires
        text.len() > 0,
        split_lines(text).len() <= usize::MAX,
        split_lines(text).len() == 1 ==> !is_blank(split_lines(text)[0]),
    ensures
        rendered_text(
            canvas,
            font_data,
            text + typed_break(),
            region,
            color,
            font_size,
            offset,
            spacing_percent,
        ) == rendered_text(
            canvas,
            font_data,
            text,
            region,
            color,
            font_size,
            offset,
            spacing_percent,
        ),
{
    let lines = split_lines(text);
    let longer = split_lines(text + typed_break());
    let widths = measured_widths(font_data, font_size, lines);
    let height = reference_height(font_data, font_size);
    lemma_split_trailing_break(text);
    lemma_split_never_empty(text, 0, 0);
    assert(longer == lines.push(Seq::<char>::empty()));
    assert(is_blank(Seq::<char>::empty()));
    assert forall|i: int| 0 <= i < lines.len() implies is_skipped(longer, i) == is_skipped(
        lines,
        i,
    ) by {
        assert(longer[i] == lines[i]);
    }
    assert(is_skipped(longer, lines.len() as int));
    assert(lines_settable(font_data, font_size, longer) == lines_settable(
        font_data,
        font_size,
        lines,
    )) by {
        if lines_settable(font_data, font_size, lines) {
            assert forall|i: int| 0 <= i < longer.len() && !is_skipped(longer, i) implies settable(
                font_data,
                font_size,
                #[trigger] longer[i],
            ) by {
                assert(longer[i] == lines[i]);
                assert(!is_skipped(lines, i));
            }
        }
        if lines_settable(font_data, font_size, longer) {
            assert forall|i: int| 0 <= i < lines.len() && !is_skipped(lines, i) implies settable(
                font_data,
                font_size,
                #[trigger] lines[i],
            ) by {
                assert(longer[i] == lines[i]);
                assert(!is_skipped(longer, i));
            }
        }
    }
    assert((text + typed_break()).len() > 0);
    if !renders(font_data, font_size, text) {
        return ;
    }
    assert(measured_widths(font_data, font_size, longer) =~= widths.push(0u32)) by {
        assert forall|i: int| 0 <= i < longer.len() implies measured_widths(
            font_data,
            font_size,
            longer,
        )[i] == widths.push(0u32)[i] by {
            if i < lines.len() {
                assert(longer[i] == lines[i]);
                assert(is_skipped(longer, i) == is_skipped(lines, i));
            }
        }
    }
    lemma_trailing_blank_line_takes_no_room(
        lines,
        widths,
        Seq::<char>::empty(),
        0u32,
        height,
        region,
        offset,
        spacing_percent,
    );
    let placed = placed_lines(lines, widths, height, region, offset, spacing_percent);
    lemma_placed_before(
        lines,
        widths,
        height,
        region,
        offset,
        spacing_percent,
        lines.len() as int,
    );
    assert forall|k: int|
        0 <= k < placed.len() implies longer[(#[trigger] placed[k]).line as int]
            == lines[placed[k].line as int] by {
        assert(placed[k].line < lines.len());
    }
    lemma_drawn_lines_of_same_lines(
        canvas,
        font_data,
        color,
        font_size,
        longer,
        lines,
        placed,
        placed.len() as int,
    );
    assert((text + typed_break()).len() > 0);
}

/// A text that draws no line leaves the canvas as it is, whatever the
/// font.
pub proof fn lemma_text_without_lines_renders_nothing(
    canvas: Raster,
    font_data: Seq<u8>,
    text: Seq<char>,
    region: TextRegion,
    color: SerializableColor,
    font_size: u16,
    offset: (i32, i32),
    spacing_percent: u32,
)
    requires
        text.len() == 0 || retained_count(split_lines(text)) == 0,
        split_lines(text).len() <= usize::MAX,
    ensures
        rendered_text(canvas, font_data, text, region, color, font_size, offset, spacing_percent)
            == canvas,
{
    let lines = split_lines(text);
    lemma_placed_before(
        lines,
        measured_widths(font_data, font_size, lines),
        reference_height(font_data, font_size),
        region,
        offset,
        spacing_percent,
        lines.len() as int,
    );
}

/// Whether a text drawn with an outline is handed to the rasteriser: its
/// corner must leave room for the outline's offsets on every side.
pub open spec fn stroke_drawable(origin: (i32, i32)) -> bool {
    &&& 2 - DRAW_LIMIT <= origin.0 <= DRAW_LIMIT - 2
    &&& 2 - DRAW_LIMIT <= origin.1 <= DRAW_LIMIT - 2
}

/// A canvas after a text is drawn at the first `n` offsets of an outline
/// around `(x, y)`.
pub open spec fn stroked(
    canvas: Raster,
    font_data: Seq<u8>,
    stroke_color: SerializableColor,
    font_size: u16,
    text: Seq<char>,
    origin: (i32, i32),
    n: int,
) -> Raster
    decreases n,
{
    if n <= 0 {
        canvas
    } else {
        let earlier = stroked(canvas, font_data, stroke_color, font_size, text, origin, n - 1);
        let step = spec_stroke_offsets()[n - 1];
        drawn(
            earlier,
            font_data,
            stroke_color,
            (origin.0 + step.0) as i32,
            (origin.1 + step.1) as i32,
            font_size,
            text,
        )
    }
}

/// A canvas after one line of text is drawn on it with an outline: a text
/// that is empty or cannot be set in the font leaves it as it is; any
/// other text is drawn in the outline's colour at each of the offsets
/// around its place, and then in its own colour at its place.
pub open spec fn rendered_with_stroke(
    canvas: Raster,
    font_data: Seq<u8>,
    text: Seq<char>,
    region: TextRegion,
    color: SerializableColor,
    stroke_color: SerializableColor,
    font_size: u16,
    offset: (i32, i32),
) -> Raster {
    let extent = text_extent(font_data, font_size, text);
    let origin = stroke_origin(region, extent.0 as u32, extent.1 as u32, offset);
    if text.len() == 0 || !settable(font_data, font_size, text) || !stroke_drawable(origin) {
        canvas
    } else {
        drawn(
            stroked(canvas, font_data, stroke_color, font_size, text, origin, 24),
            font_data,
            color,
            origin.0,
            origin.1,
            font_size,
            text,
        )
    }
}

/// Sets text on a canvas in one font. What it is to a contract is the
/// font data it was made from, which the parser has accepted.
pub struct TextRenderer {
    font_data: Vec<u8>,
}

impl View for TextRenderer {
    type V = Seq<u8>;

    closed spec fn view(&self) -> Seq<u8> {
        self.font_data@
    }
}

/// Font data from which a `TextRenderer` can be made again.
#[derive(Clone)]
pub struct SerializableTextRenderer {
    pub font_bytes: Vec<u8>,
}

impl SerializableTextRenderer {
    /// Keeps font data for later.
    pub fn new(font_bytes: Vec<u8>) -> (stored: Self)
        ensures
            stored.font_bytes@ == font_bytes@,
    {
        SerializableTextRenderer { font_bytes }
    }

    /// A renderer for the font in the data kept: there is one exactly
    /// where the parser accepts the data, and it is a renderer of that
    /// data.
    pub fn to_text_renderer(&self) -> (renderer: Result<TextRenderer, LabelError>)
        ensures
            renderer is Ok <==> font_is_valid(self.font_bytes@),
            renderer is Ok ==> renderer->Ok_0@ == self.font_bytes@,
            renderer is Err ==> TextRenderer::is_font_error(renderer->Err_0),
    {
        TextRenderer::from_font_data(self.font_bytes.clone())
    }
}

impl TextRenderer {
    #[verifier::type_invariant]
    closed spec fn inv(self) -> bool {
        font_is_valid(self.font_data@)
    }

    /// Whether `error` is the one reported for font data that the parser
    /// rejects.
    pub open spec fn is_font_error(error: LabelError) -> bool {
        error matches LabelError::TextRendering(detail) && detail@ == "Failed to load font"@
    }

    /// A renderer for the font in `font_data`: there is one exactly where
    /// the parser accepts the data, and it is a renderer of that data.
    pub fn new(font_data: Vec<u8>) -> (renderer: Result<Self, LabelError>)
        ensures
            renderer is Ok <==> font_is_valid(font_data@),
            renderer is Ok ==> renderer->Ok_0@ == font_data@,
            renderer is Err ==> Self::is_font_error(renderer->Err_0),
    {
        Self::from_font_data(font_data)
    }

    /// A renderer for the font in `font_data`: there is one exactly where
    /// the parser accepts the data, and it is a renderer of that data.
    pub fn from_font_data(font_data: Vec<u8>) -> (renderer: Result<Self, LabelError>)
        ensures
            renderer is Ok <==> font_is_valid(font_data@),
            renderer is Ok ==> renderer->Ok_0@ == font_data@,
            renderer is Err ==> Self::is_font_error(renderer->Err_0),
    {
        if font_parses(&font_data) {
            Ok(TextRenderer { font_data })
        } else {
            Err(LabelError::TextRendering(String::from_str("Failed to load font")))
        }
    }

    /// Whether a line of `length` characters set in this font at
    /// `font_size` stays within reach.
    pub fn reaches(&self, font_size: u16, length: usize) -> (ok: bool)
        ensures
            ok == within_reach(self@, font_size, length as nat),
    {
        proof {
            use_type_invariant(self);
        }
        let ascender = font_ascender(&self.font_data);
        let descender = font_descender(&self.font_data);
        let height: i64 = ascender as i64 - descender as i64;
        if font_size < 1 || height < 1 || 4 * (font_size as i64) > height {
            return false;
        }
        assert((length + 1) * UNITS_PER_CHARACTER * font_size <= 0x1_0000_0000_0000_0000
            * UNITS_PER_CHARACTER * 0xFFFF) by (nonlinear_arith)
            requires
                0 <= length + 1 <= 0x1_0000_0000_0000_0000,
                0 <= font_size <= 0xFFFF,
                UNITS_PER_CHARACTER == 98304,
        ;
        assert(0 <= (length + 1) * UNITS_PER_CHARACTER * font_size) by (nonlinear_arith)
            requires
                0 <= length + 1,
                0 <= font_size,
                UNITS_PER_CHARACTER == 98304,
        ;
        assert(0 <= (length + 1) * UNITS_PER_CHARACTER <= 0x1_0000_0000_0000_0000 * 98304)
            by (nonlinear_arith)
            requires
                0 <= length + 1 <= 0x1_0000_0000_0000_0000,
                UNITS_PER_CHARACTER == 98304,
        ;
        assert(0 <= LINE_REACH * height <= 0x2000_0000 * 0x1_0000) by (nonlinear_arith)
            requires
                LINE_REACH == 0x2000_0000,
                1 <= height <= 0x1_0000,
        ;
        let needed: u128 = (length as u128 + 1) * (UNITS_PER_CHARACTER as u128) * (
        font_size as u128);
        needed <= (LINE_REACH as u128) * (height as u128)
    }

    /// Whether a text can be set on one line in this font at `font_size`:
    /// the font holds a glyph with horizontal metrics and a sound box for
    /// each of its characters, and the line stays within reach.
    pub fn can_set(&self, font_size: u16, text: &str) -> (ok: bool)
        ensures
            ok == settable(self@, font_size, text@),
    {
        proof {
            use_type_invariant(self);
        }
        let chars = chars_of(text);
        if !self.reaches(font_size, chars.len()) {
            return false;
        }
        let count = glyph_count(&self.font_data);
        let mut i: usize = 0;
        while i < chars.len()
            invariant
                font_is_valid(self.font_data@),
                chars@ == text@,
                count == glyph_count_of(self@),
                i <= chars@.len(),
                forall|j: int| 0 <= j < i ==> usable(self@, #[trigger] chars@[j]),
            decreases chars@.len() - i,
        {
            let c = chars[i];
            let glyph: u16 = match glyph_index(&self.font_data, c) {
                Some(named) => named,
                None => 0,
            };
            if glyph >= count || glyph_advance(&self.font_data, glyph).is_none()
                || glyph_side_bearing(&self.font_data, glyph).is_none() {
                assert(!usable(self@, chars@[i as int]));
                return false;
            }
            match glyph_bounding_box(&self.font_data, glyph) {
                Some(bounds) => {
                    if bounds.0 > bounds.2 || bounds.1 > bounds.3 || bounds.1 == i16::MIN
                        || bounds.3 == i16::MIN {
                        assert(!usable(self@, chars@[i as int]));
                        return false;
                    }
                },
                None => {},
            }
            i += 1;
        }
        true
    }

    /// Draws a text into its region: each line that `layout_lines` places,
    /// at its place, in one colour, the lines measured in this renderer's
    /// font. `font_size` is in pixels and `line_spacing_percent` in
    /// hundredths of the reference height. A text that cannot be set in
    /// the font at that size is not drawn.
    pub fn render_text(
        &self,
        canvas: &mut SerializableRgbaImage,
        text: &str,
        region: TextRegion,
        color: SerializableColor,
        font_size: u16,
        offset: (i32, i32),
        line_spacing_percent: u32,
    )
        requires
            old(canvas).wf(),
        ensures
            final(canvas)@ == rendered_text(
                old(canvas)@,
                self@,
                text@,
                region,
                color,
                font_size,
                offset,
                line_spacing_percent,
            ),
            final(canvas).wf(),
            final(canvas)@.same_size(old(canvas)@),
            text@.len() == 0 || retained_count(split_lines(text@)) == 0 ==> final(canvas)@ == old(
                canvas,
            )@,
            forall|px: int, py: int, c: int|
                old(canvas)@.contains(px, py) && 0 <= c < 4 && beyond_text(
                    self@,
                    text@,
                    region,
                    font_size,
                    offset,
                    line_spacing_percent,
                    px,
                    py,
                ) ==> #[trigger] final(canvas)@.channel(px, py, c) == old(canvas)@.channel(
                    px,
                    py,
                    c,
                ),
    {
        proof {
            use_type_invariant(self);
        }
        if text.is_empty() || !self.can_set(font_size, "Hg") {
            return ;
        }
        let lines = split_text(text);
        let ghost texts = lines_view(lines@);
        let multi = lines.len() > 1;
        let mut checked: usize = 0;
        while checked < lines.len()
            invariant
                texts == lines_view(lines@),
                texts == split_lines(text@),
                multi == (lines@.len() > 1),
                checked <= lines@.len(),
                canvas@ == old(canvas)@,
                canvas.wf(),
                forall|j: int|
                    0 <= j < checked && !is_skipped(texts, j) ==> settable(
                        self@,
                        font_size,
                        #[trigger] texts[j],
                    ),
            decreases lines@.len() - checked,
        {
            let blank = line_is_blank(lines[checked]);
            assert(texts[checked as int] == lines@[checked as int]@);
            if !(multi && blank) && !self.can_set(font_size, lines[checked]) {
                assert(!is_skipped(texts, checked as int));
                assert(!lines_settable(self@, font_size, texts));
                return ;
            }
            checked += 1;
        }
        assert(lines_settable(self@, font_size, texts));
        let reference = measure_text(&self.font_data, font_size, "Hg");
        let mut widths: Vec<u32> = Vec::new();
        for i in 0..lines.len()
            invariant
                font_is_valid(self.font_data@),
                lines_settable(self@, font_size, texts),
                texts == lines_view(lines@),
                multi == (lines@.len() > 1),
                widths@.len() == i,
                forall|j: int|
                    0 <= j < i ==> widths@[j] == measured_widths(self@, font_size, texts)[j],
        {
            let blank = line_is_blank(lines[i]);
            assert(texts[i as int] == lines@[i as int]@);
            let width: u32 = if multi && blank {
                0
            } else {
                measure_text(&self.font_data, font_size, lines[i]).0 as u32
            };
            widths.push(width);
        }
        assert(widths@ =~= measured_widths(self@, font_size, texts));
        let placed = layout_lines(
            &lines,
            &widths,
            reference.1 as u32,
            region,
            offset,
            line_spacing_percent,
        );
        assert(placed@ == text_placements(
            self@,
            font_size,
            text@,
            region,
            offset,
            line_spacing_percent,
        ));
        for k in 0..placed.len()
            invariant
                font_is_valid(self.font_data@),
                lines_settable(self@, font_size, texts),
                texts == lines_view(lines@),
                canvas.wf(),
                canvas@.same_size(old(canvas)@),
                canvas@ == drawn_lines(
                    old(canvas)@,
                    self@,
                    color,
                    font_size,
                    texts,
                    placed@,
                    k as int,
                ),
                forall|j: int|
                    0 <= j < placed@.len() ==> (#[trigger] placed@[j]).line < lines@.len()
                        && !is_skipped(texts, placed@[j].line as int),
                forall|px: int, py: int, c: int|
                    old(canvas)@.contains(px, py) && 0 <= c < 4 && beyond_lines(
                        self@,
                        font_size,
                        texts,
                        placed@,
                        k as int,
                        px,
                        py,
                    ) ==> #[trigger] canvas@.channel(px, py, c) == old(canvas)@.channel(px, py, c),
        {
            let at = placed[k];
            let ghost before = canvas@;
            assert(texts[at.line as int] == lines@[at.line as int]@);
            assert(!is_skipped(texts, at.line as int));
            if -DRAW_LIMIT <= at.x && at.x <= DRAW_LIMIT && -DRAW_LIMIT <= at.y && at.y
                <= DRAW_LIMIT {
                draw_line(&self.font_data, canvas, color, at.x, at.y, font_size, lines[at.line]);
            }
            proof {
                assert forall|px: int, py: int, c: int|
                    old(canvas)@.contains(px, py) && 0 <= c < 4 && beyond_lines(
                        self@,
                        font_size,
                        texts,
                        placed@,
                        k + 1,
                        px,
                        py,
                    ) implies #[trigger] canvas@.channel(px, py, c) == old(canvas)@.channel(
                    px,
                    py,
                    c,
                ) by {
                    assert(placed@[k as int] == at);
                    assert(beyond_line(
                        self@,
                        font_size,
                        texts[at.line as int],
                        at.x,
                        at.y,
                        px,
                        py,
                    ));
                    assert(beyond_lines(self@, font_size, texts, placed@, k as int, px, py));
                    assert(before.channel(px, py, c) == old(canvas)@.channel(px, py, c));
                    assert(before.contains(px, py));
                }
            }
        }
    }

    /// Draws one line of text with an outline: the text in the outline's
    /// colour at each of the offsets around its place, then the text in
    /// its own colour on top.
    pub fn render_text_with_stroke(
        &self,
        canvas: &mut SerializableRgbaImage,
        text: &str,
        region: TextRegion,
        color: SerializableColor,
        stroke_color: SerializableColor,
        font_size: u16,
        offset: (i32, i32),
    )
        requires
            old(canvas).wf(),
        ensures
            final(canvas)@ == rendered_with_stroke(
                old(canvas)@,
                self@,
                text@,
                region,
                color,
                stroke_color,
                font_size,
                offset,
            ),
            final(canvas).wf(),
            final(canvas)@.same_size(old(canvas)@),
            text@.len() == 0 ==> final(canvas)@ == old(canvas)@,
    {
        proof {
            use_type_invariant(self);
        }
        if text.is_empty() || !self.can_set(font_size, text) {
            return ;
        }
        let size = measure_text(&self.font_data, font_size, text);
        let x = saturate_coordinate(start_of_line(region, size.0 as u32) + offset.0 as i128);
        let y = saturate_coordinate(
            region.y as i128 - ((size.1 as u32) / 2) as i128 + offset.1 as i128,
        );
        assert((x, y) == stroke_origin(region, size.0 as u32, size.1 as u32, offset));
        if 2 - DRAW_LIMIT <= x && x <= DRAW_LIMIT - 2 && 2 - DRAW_LIMIT <= y && y <= DRAW_LIMIT
            - 2 {
            let offsets = stroke_offsets();
            for k in 0..offsets.len()
                invariant
                    font_is_valid(self.font_data@),
                    settable(self@, font_size, text@),
                    canvas.wf(),
                    canvas@.same_size(old(canvas)@),
                    offsets@ == spec_stroke_offsets(),
                    2 - DRAW_LIMIT <= x <= DRAW_LIMIT - 2,
                    2 - DRAW_LIMIT <= y <= DRAW_LIMIT - 2,
                    canvas@ == stroked(
                        old(canvas)@,
                        self@,
                        stroke_color,
                        font_size,
                        text@,
                        (x, y),
                        k as int,
                    ),
            {
                let step = offsets[k];
                assert(step == spec_stroke_offsets()[k as int]);
                assert(-2 <= step.0 <= 2 && -2 <= step.1 <= 2);
                draw_line(
                    &self.font_data,
                    canvas,
                    stroke_color,
                    x + step.0,
                    y + step.1,
                    font_size,
                    text,
                );
            }
            draw_line(&self.font_data, canvas, color, x, y, font_size, text);
        }
    }
}

} // verus!
