//! The text shaper: turns a byte run plus a style into positioned
//! glyph draw instances, consuming the shared flow cursor like a run
//! of inline elements.
//!
//! Shaping is a single pass over the bytes. Three wrap modes exist:
//! no wrapping (explicit newlines only), per-character wrapping, and
//! per-word wrapping that never splits a word. A post-pass then
//! applies whole-line horizontal centering (mode bit 0) and
//! whole-block vertical centering (mode bit 1) by shifting the placed
//! glyphs.

use vstd::prelude::*;

use crate::element::text_bytes_wf;
use crate::element::Text;
use crate::element::TextV;
use crate::element::WrapMode;
use crate::font::Font;
use crate::font::BASE_GLYPH_SIZE;
use crate::formats::RGBA;
use crate::instance::UiInstance;
use crate::instance::MODE_GLYPH;
use crate::layout::BuildContext;
use crate::px::px_add;
use crate::px::px_half;
use crate::px::px_max;
use crate::px::px_mul;
use crate::px::px_mul_count;
use crate::px::px_sub;
use crate::px::sat64;
use crate::px::tdiv;
use crate::style::Inline;
use crate::style::Position;
use crate::style::Style;
use crate::style::UiSize;
use crate::vec2::Vec2;

verus! {

/// The per-run constants of one shaping pass.
pub ghost struct ShapeEnv {
    /// The line advance, in pixels.
    pub font_size: int,
    /// The glyph scale factor (font size over the base cell size).
    pub scale: int,
    /// The glyph colour.
    pub color: RGBA,
    /// The y origin of the run, for the wrap-back test.
    pub base_y: int,
    /// The line height of the surrounding flow when the run started.
    pub line_offset: int,
}

/// The mutable state of one shaping pass.
pub ghost struct ShapeSt {
    /// Finished lines, oldest first.
    pub lines: Seq<Seq<UiInstance>>,
    /// The line being filled.
    pub cur: Seq<UiInstance>,
    /// The width of the line being filled.
    pub cur_w: int,
    /// The x origin glyphs of the current run are placed from.
    pub x: int,
    /// The baseline y of the line being filled.
    pub y: int,
    /// The width available to a line.
    pub maxw: int,
    /// The flow cursor x inherited from the surrounding flow; zeroed
    /// once the run wraps back to the parent's left edge.
    pub sx: int,
}

/// The advance width of one glyph at the run's scale.
pub open spec fn spec_glyph_w(font: Font, scale: int, c: u8) -> int {
    sat64(font.entry((c - 32) * 4 + 2) * scale)
}

/// One glyph instance: scaled size, position, and the atlas coordinates
/// packed as `width << 16 | atlas_x` and `base_size << 16 | atlas_y`.
pub open spec fn spec_glyph(env: ShapeEnv, font: Font, c: u8, x: int, y: int) -> UiInstance {
    let ax = font.entry((c - 32) * 4);
    let ay = font.entry((c - 32) * 4 + 1);
    let w = font.entry((c - 32) * 4 + 2);
    UiInstance {
        color: env.color,
        border_color: env.color,
        border: (w * 0x10000 + ax) as i64,
        x: sat64(x) as i64,
        y: sat64(y) as i64,
        width: sat64(w * env.scale) as i64,
        height: sat64(BASE_GLYPH_SIZE * env.scale) as i64,
        corner: (BASE_GLYPH_SIZE * 0x10000 + ay) as i64,
        mode: MODE_GLYPH,
    }
}

/// Appends one glyph to the current line and advances its width.
pub open spec fn spec_place(st: ShapeSt, env: ShapeEnv, font: Font, c: u8) -> ShapeSt {
    let g = spec_glyph(env, font, c, sat64(st.x + st.cur_w), st.y);
    ShapeSt { cur: st.cur.push(g), cur_w: sat64(st.cur_w + g.width), ..st }
}

/// Finishes the current line and steps the baseline down. Once the
/// run has grown taller than the flow line it started on, it wraps
/// back to the parent's left edge: the inherited cursor x is undone
/// and the line width grows by the space gained.
pub open spec fn spec_new_line(st: ShapeSt, env: ShapeEnv) -> ShapeSt {
    let st1 = ShapeSt {
        lines: st.lines.push(st.cur),
        cur: Seq::empty(),
        cur_w: 0,
        y: sat64(st.y + env.font_size),
        ..st
    };
    if st1.y - env.base_y > env.line_offset {
        ShapeSt { x: sat64(st1.x - st1.sx), maxw: sat64(st1.maxw + st1.sx), sx: 0, ..st1 }
    } else {
        st1
    }
}

/// One byte in no-wrap mode: newlines break, everything else is placed.
pub open spec fn spec_step_nowrap(st: ShapeSt, env: ShapeEnv, font: Font, c: u8) -> ShapeSt {
    if c == 10 {
        spec_new_line(st, env)
    } else {
        spec_place(st, env, font, c)
    }
}

/// One byte in character mode: wraps first whenever the glyph would
/// exceed the available width.
pub open spec fn spec_step_char(st: ShapeSt, env: ShapeEnv, font: Font, c: u8) -> ShapeSt {
    if c == 10 {
        spec_new_line(st, env)
    } else {
        let w = spec_glyph_w(font, env.scale, c);
        let st1 = if st.cur_w + w > st.maxw {
            spec_new_line(st, env)
        } else {
            st
        };
        spec_place(st1, env, font, c)
    }
}

/// Places a whole run of glyphs with no wrap checks.
pub open spec fn spec_run(st: ShapeSt, env: ShapeEnv, font: Font, w: Seq<u8>) -> ShapeSt
    decreases w.len(),
{
    if w.len() == 0 {
        st
    } else {
        spec_place(spec_run(st, env, font, w.drop_last()), env, font, w.last())
    }
}

/// Commits a pending word: flushes the line first if the word does not
/// fit, then places the word whole.
pub open spec fn spec_flush_word(
    st: ShapeSt,
    env: ShapeEnv,
    font: Font,
    word: Seq<u8>,
    word_w: int,
) -> ShapeSt {
    let st1 = if st.cur_w + word_w > st.maxw {
        spec_new_line(st, env)
    } else {
        st
    };
    spec_run(st1, env, font, word)
}

/// Word-mode state: the shaping state plus the pending word.
pub ghost struct WordSt {
    pub st: ShapeSt,
    pub word: Seq<u8>,
    pub word_w: int,
}

/// One byte in word mode. Whitespace commits the pending word, places
/// a space glyph (wrapping first if either does not fit), and a
/// newline additionally breaks the line; any other byte joins the
/// pending word.
pub open spec fn spec_step_word(ws: WordSt, env: ShapeEnv, font: Font, c: u8) -> WordSt {
    if c == 32 || c == 10 {
        let st1 = if ws.word.len() > 0 {
            spec_flush_word(ws.st, env, font, ws.word, ws.word_w)
        } else {
            ws.st
        };
        let cw = spec_glyph_w(font, env.scale, 32);
        let st2 = if st1.cur_w + cw > st1.maxw {
            spec_new_line(st1, env)
        } else {
            st1
        };
        let st3 = spec_place(st2, env, font, 32);
        let st4 = if c == 10 {
            spec_new_line(st3, env)
        } else {
            st3
        };
        WordSt { st: st4, word: Seq::empty(), word_w: 0 }
    } else {
        WordSt {
            st: ws.st,
            word: ws.word.push(c),
            word_w: sat64(ws.word_w + spec_glyph_w(font, env.scale, c)),
        }
    }
}

/// The no-wrap pass over a byte run.
pub open spec fn spec_fold_nowrap(st: ShapeSt, env: ShapeEnv, font: Font, t: Seq<u8>) -> ShapeSt
    decreases t.len(),
{
    if t.len() == 0 {
        st
    } else {
        spec_step_nowrap(spec_fold_nowrap(st, env, font, t.drop_last()), env, font, t.last())
    }
}

/// The character-mode pass over a byte run.
pub open spec fn spec_fold_char(st: ShapeSt, env: ShapeEnv, font: Font, t: Seq<u8>) -> ShapeSt
    decreases t.len(),
{
    if t.len() == 0 {
        st
    } else {
        spec_step_char(spec_fold_char(st, env, font, t.drop_last()), env, font, t.last())
    }
}

/// The word-mode pass over a byte run.
pub open spec fn spec_fold_word(ws: WordSt, env: ShapeEnv, font: Font, t: Seq<u8>) -> WordSt
    decreases t.len(),
{
    if t.len() == 0 {
        ws
    } else {
        spec_step_word(spec_fold_word(ws, env, font, t.drop_last()), env, font, t.last())
    }
}

/// The summed width of a line.
pub open spec fn spec_line_width(line: Seq<UiInstance>) -> int
    decreases line.len(),
{
    if line.len() == 0 {
        0
    } else {
        sat64(spec_line_width(line.drop_last()) + line.last().width)
    }
}

/// A line shifted by the centering offsets.
pub open spec fn spec_shift_line(line: Seq<UiInstance>, xoff: int, yoff: int) -> Seq<UiInstance> {
    Seq::new(
        line.len(),
        |i: int|
            UiInstance {
                x: sat64(line[i].x + xoff) as i64,
                y: sat64(line[i].y + yoff) as i64,
                ..line[i]
            },
    )
}

/// The centering post-pass: each line is shifted right by half its
/// free width when mode bit 0 is set, and the whole block down by
/// `yoff`, then the lines are flattened in order.
pub open spec fn spec_center_lines(
    lines: Seq<Seq<UiInstance>>,
    maxw: int,
    mode: u8,
    yoff: int,
) -> Seq<UiInstance>
    decreases lines.len(),
{
    if lines.len() == 0 {
        Seq::empty()
    } else {
        let line = lines.last();
        let xoff = if mode & 1 == 1 {
            tdiv(sat64(maxw - spec_line_width(line)), 2)
        } else {
            0
        };
        spec_center_lines(lines.drop_last(), maxw, mode, yoff) + spec_shift_line(line, xoff, yoff)
    }
}

/// The line advance and glyph scale a style resolves to.
pub open spec fn spec_font_metrics(style: Style, parent: Vec2) -> (int, int) {
    let fs0 = style.height.spec_height(parent);
    let scale = tdiv(fs0, BASE_GLYPH_SIZE as int);
    (sat64(fs0 + sat64(scale + scale)), scale)
}

/// The width available to the run: to the end of the parent for
/// automatic width, between the margins otherwise.
pub open spec fn spec_text_maxw(style: Style, inl: Inline, ctx: BuildContext) -> int {
    if style.width is Auto {
        sat64(ctx.parent_size.x - ctx.start_pos.x)
    } else {
        sat64(
            sat64(ctx.parent_size.x - inl.margin.left.spec_pixelx(ctx.parent_size))
                - inl.margin.right.spec_pixelx(ctx.parent_size),
        )
    }
}

/// The constants of a run shaped at `pos` under `ctx`.
pub open spec fn spec_env(style: Style, pos: Vec2, ctx: BuildContext) -> ShapeEnv {
    let (fs, scale) = spec_font_metrics(style, ctx.parent_size);
    ShapeEnv {
        font_size: fs,
        scale,
        color: style.color,
        base_y: pos.y as int,
        line_offset: ctx.line_offset as int,
    }
}

/// The state a run starts from: the glyph origin is the run position
/// pushed in by the leading margins (resolved against a zero box), one
/// scale unit down.
pub open spec fn spec_init(style: Style, inl: Inline, pos: Vec2, ctx: BuildContext) -> ShapeSt {
    let (fs, scale) = spec_font_metrics(style, ctx.parent_size);
    let zero = Vec2 { x: 0i64, y: 0i64 };
    ShapeSt {
        lines: Seq::empty(),
        cur: Seq::empty(),
        cur_w: 0,
        x: sat64(pos.x + inl.margin.left.spec_pixelx(zero)),
        y: sat64(sat64(pos.y + inl.margin.top.spec_pixely(zero)) + scale),
        maxw: spec_text_maxw(style, inl, ctx),
        sx: ctx.start_pos.x as int,
    }
}

/// The final shaping state of a run, per wrap mode.
pub open spec fn spec_shape_final(
    text: Seq<u8>,
    wrap: WrapMode,
    style: Style,
    inl: Inline,
    pos: Vec2,
    ctx: BuildContext,
    font: Font,
) -> ShapeSt {
    let env = spec_env(style, pos, ctx);
    let st0 = spec_init(style, inl, pos, ctx);
    match wrap {
        WrapMode::NoWrap => spec_fold_nowrap(st0, env, font, text),
        WrapMode::Character => spec_fold_char(st0, env, font, text),
        WrapMode::Word => {
            let ws = spec_fold_word(WordSt { st: st0, word: Seq::empty(), word_w: 0 }, env, font, text);
            if ws.word.len() > 0 {
                spec_flush_word(ws.st, env, font, ws.word, ws.word_w)
            } else {
                ws.st
            }
        },
    }
}

/// The shaped glyph run and the flow cursor it leaves behind. Empty
/// text produces no instances and leaves the cursor untouched.
pub open spec fn spec_shape(
    text: Seq<u8>,
    wrap: WrapMode,
    mode: u8,
    style: Style,
    inl: Inline,
    pos: Vec2,
    ctx: BuildContext,
    font: Font,
) -> (Seq<UiInstance>, BuildContext) {
    if text.len() == 0 {
        (Seq::empty(), ctx)
    } else {
        let env = spec_env(style, pos, ctx);
        let stf = spec_shape_final(text, wrap, style, inl, pos, ctx, font);
        let lines1 = if stf.cur.len() > 0 {
            stf.lines.push(stf.cur)
        } else {
            stf.lines
        };
        let nlines: int = if lines1.len() == 0 {
            1
        } else {
            lines1.len() as int
        };
        let yoff = if mode & 2 == 2 {
            tdiv(sat64(ctx.parent_size.y - env.font_size), 2)
        } else {
            0
        };
        let out = spec_center_lines(lines1, stf.maxw, mode, yoff);
        let nctx = BuildContext {
            start_pos: Vec2 {
                x: sat64(stf.cur_w) as i64,
                y: sat64(ctx.start_pos.y + sat64(env.font_size * (nlines - 1))) as i64,
            },
            line_offset: if ctx.line_offset >= env.font_size {
                ctx.line_offset
            } else {
                sat64(env.font_size) as i64
            },
            ..ctx
        };
        (out, nctx)
    }
}

/// The views of a sequence of line vectors.
pub open spec fn lines_view(s: Seq<Vec<UiInstance>>) -> Seq<Seq<UiInstance>>
    decreases s,
{
    if s.len() == 0 {
        Seq::empty()
    } else {
        lines_view(s.drop_last()).push(s.last()@)
    }
}

/// `lines_view` maps indices through unchanged.
pub proof fn lemma_lines_view_index(s: Seq<Vec<UiInstance>>)
    ensures
        lines_view(s).len() == s.len(),
        forall|i: int| 0 <= i < s.len() ==> lines_view(s)[i] == #[trigger] s[i]@,
    decreases s.len(),
{
    if s.len() == 0 {
        assert(lines_view(s) == Seq::<Seq<UiInstance>>::empty());
    } else {
        lemma_lines_view_index(s.drop_last());
        assert(lines_view(s) == lines_view(s.drop_last()).push(s.last()@));
        assert forall|i: int| 0 <= i < s.len() implies lines_view(s)[i] == #[trigger] s[i]@ by {
            if i < s.len() - 1 {
                assert(s.drop_last()[i] == s[i]);
                assert(lines_view(s)[i] == lines_view(s.drop_last())[i]);
            } else {
                assert(s[i] == s.last());
            }
        }
    }
}

/// Appending one line appends its view.
pub proof fn lemma_lines_view_push(s: Seq<Vec<UiInstance>>, e: Vec<UiInstance>)
    ensures
        lines_view(s.push(e)) == lines_view(s).push(e@),
{
    assert(s.push(e).drop_last() =~= s);
    assert(s.push(e).last() == e);
}

/// The inline intent of a position known to be inline.
pub open spec fn spec_inline(p: Position) -> Inline {
    p->Inline_0
}

/// A text element built under `ctx`: the run starts at the flow
/// cursor, the shaped glyphs replace the old ones, and the computed
/// box covers the flow the run consumed.
#[verifier::opaque]
pub open spec fn spec_build_text_elem(
    e: crate::element::ElemV,
    t: TextV,
    ctx: BuildContext,
    font: Font,
) -> (crate::element::ElemV, BuildContext) {
    let rel = ctx.start_pos;
    let pos = rel.spec_plus(ctx.parent_pos);
    let r = spec_shape(t.text, t.wrap, t.mode, e.style, spec_inline(e.style.position), pos, ctx, font);
    let glyphs = r.0;
    let ctx1 = r.1;
    let size = Vec2 {
        x: sat64(ctx1.start_pos.x - rel.x) as i64,
        y: sat64(sat64(ctx1.start_pos.y - rel.y) + ctx1.line_offset) as i64,
    };
    let comp = crate::instance::RawUiElement {
        color: e.style.color,
        border_color: e.style.border_color,
        border: e.style.border,
        pos,
        size,
        corner: e.computed.corner,
        mode: e.computed.mode,
        order: ctx.order,
    };
    (
        crate::element::ElemV {
            dirty: false,
            computed: comp,
            inherit: crate::element::UiTypeV::Text(TextV { comp_text: glyphs, ..t }),
            ..e
        },
        ctx1,
    )
}

/// The executable shaping state; its view is the ghost `ShapeSt`.
struct Shaper {
    lines: Vec<Vec<UiInstance>>,
    cur: Vec<UiInstance>,
    cur_w: i64,
    x: i64,
    y: i64,
    maxw: i64,
    sx: i64,
    font_size: i64,
    scale: i64,
    color: RGBA,
    base_y: i64,
    line_offset: i64,
}

impl Shaper {
    spec fn st(self) -> ShapeSt {
        ShapeSt {
            lines: lines_view(self.lines@),
            cur: self.cur@,
            cur_w: self.cur_w as int,
            x: self.x as int,
            y: self.y as int,
            maxw: self.maxw as int,
            sx: self.sx as int,
        }
    }

    spec fn env(self) -> ShapeEnv {
        ShapeEnv {
            font_size: self.font_size as int,
            scale: self.scale as int,
            color: self.color,
            base_y: self.base_y as int,
            line_offset: self.line_offset as int,
        }
    }

    fn place(&mut self, c: u8, font: &Font)
        requires
            font.wf(),
            c >= 32,
        ensures
            final(self).st() == spec_place(old(self).st(), old(self).env(), *font, c),
            final(self).env() == old(self).env(),
    {
        let (ax, ay, w, _) = font.get_data(c);
        let gw = px_mul(w as i64, self.scale);
        let gx = px_add(self.x, self.cur_w);
        let inst = UiInstance {
            color: self.color,
            border_color: self.color,
            border: (w as i64) * 0x10000 + (ax as i64),
            x: gx,
            y: self.y,
            width: gw,
            height: px_mul(BASE_GLYPH_SIZE, self.scale),
            corner: BASE_GLYPH_SIZE * 0x10000 + (ay as i64),
            mode: MODE_GLYPH,
        };
        self.cur.push(inst);
        self.cur_w = px_add(self.cur_w, gw);
    }

    fn new_line(&mut self)
        ensures
            final(self).st() == spec_new_line(old(self).st(), old(self).env()),
            final(self).env() == old(self).env(),
    {
        let mut tmp: Vec<UiInstance> = Vec::new();
        core::mem::swap(&mut tmp, &mut self.cur);
        proof {
            lemma_lines_view_push(self.lines@, tmp);
        }
        self.lines.push(tmp);
        self.cur_w = 0;
        self.y = px_add(self.y, self.font_size);
        if (self.y as i128) - (self.base_y as i128) > (self.line_offset as i128) {
            self.x = px_sub(self.x, self.sx);
            self.maxw = px_add(self.maxw, self.sx);
            self.sx = 0;
        }
    }

    /// Places a whole word with no wrap checks.
    fn run(&mut self, word: &Vec<u8>, font: &Font)
        requires
            font.wf(),
            forall|j: int| 0 <= j < word@.len() ==> word@[j] >= 32,
        ensures
            final(self).st() == spec_run(old(self).st(), old(self).env(), *font, word@),
            final(self).env() == old(self).env(),
    {
        let ghost st0 = self.st();
        let ghost env0 = self.env();
        let n = word.len();
        let mut i: usize = 0;
        while i < n
            invariant
                i <= n,
                n == word@.len(),
                font.wf(),
                forall|j: int| 0 <= j < word@.len() ==> word@[j] >= 32,
                self.st() == spec_run(st0, env0, *font, word@.take(i as int)),
                self.env() == env0,
            decreases n - i,
        {
            self.place(word[i], font);
            proof {
                assert(word@.take(i + 1 as int).drop_last() =~= word@.take(i as int));
                assert(word@.take(i + 1 as int).last() == word@[i as int]);
            }
            i = i + 1;
        }
        proof {
            assert(word@.take(n as int) =~= word@);
        }
    }
}

impl Text {
    /// Shapes this run at `pos` under the given flow context, storing
    /// the glyph instances and consuming the flow cursor exactly like
    /// a run of inline elements.
    pub fn build_text(&mut self, style: &Style, pos: Vec2, context: &mut BuildContext, font: &Font)
        requires
            font.wf(),
            text_bytes_wf(old(self).text@),
            style.position is Inline,
        ensures
            final(self).font == old(self).font,
            final(self).text == old(self).text,
            final(self).wrap == old(self).wrap,
            final(self).mode == old(self).mode,
            final(self).comp_text@ == spec_shape(
                old(self).text@,
                old(self).wrap,
                old(self).mode,
                *style,
                spec_inline(style.position),
                pos,
                *old(context),
                *font,
            ).0,
            *final(context) == spec_shape(
                old(self).text@,
                old(self).wrap,
                old(self).mode,
                *style,
                spec_inline(style.position),
                pos,
                *old(context),
                *font,
            ).1,
    {
        if self.text.len() == 0 {
            self.comp_text = Vec::new();
            return ;
        }
        let inl: Inline = if let Position::Inline(i) = style.position {
            i
        } else {
            Inline {
                margin: crate::style::Margin {
                    left: crate::unit::UiUnit::Zero,
                    top: crate::unit::UiUnit::Zero,
                    right: crate::unit::UiUnit::Zero,
                    bottom: crate::unit::UiUnit::Zero,
                },
                overflow: crate::overflow::Overflow {
                    x: crate::overflow::OverflowAxis::Hidden,
                    y: crate::overflow::OverflowAxis::Hidden,
                },
            }
        };
        proof {
            assert(inl == spec_inline(style.position));
        }
        let fs0 = style.height.height(context.parent_size);
        let scale = crate::px::px_div(fs0, 8);
        let font_size = px_add(fs0, px_add(scale, scale));
        let maxw = match style.width {
            UiSize::Auto => px_sub(context.parent_size.x, context.start_pos.x),
            _ => px_sub(
                px_sub(context.parent_size.x, inl.margin.left.pixelx(context.parent_size)),
                inl.margin.right.pixelx(context.parent_size),
            ),
        };
        let zero = Vec2 { x: 0, y: 0 };
        let mut sh = Shaper {
            lines: Vec::new(),
            cur: Vec::new(),
            cur_w: 0,
            x: px_add(pos.x, inl.margin.left.pixelx(zero)),
            y: px_add(px_add(pos.y, inl.margin.top.pixely(zero)), scale),
            maxw,
            sx: context.start_pos.x,
            font_size,
            scale,
            color: style.color,
            base_y: pos.y,
            line_offset: context.line_offset,
        };
        let ghost env0 = sh.env();
        let ghost st0 = sh.st();
        proof {
            assert(lines_view(sh.lines@) =~= Seq::<Seq<UiInstance>>::empty());
            assert(env0 == spec_env(*style, pos, *old(context)));
            assert(st0 == spec_init(*style, inl, pos, *old(context)));
        }
        let ghost text0 = self.text@;
        let n = self.text.len();
        match self.wrap {
            WrapMode::NoWrap => {
                let mut i: usize = 0;
                while i < n
                    invariant
                        i <= n,
                        n == self.text@.len(),
                        self.text@ == text0,
                        font.wf(),
                        text_bytes_wf(text0),
                        sh.env() == env0,
                        sh.st() == spec_fold_nowrap(st0, env0, *font, text0.take(i as int)),
                    decreases n - i,
                {
                    let c = self.text[i];
                    if c == 10 {
                        sh.new_line();
                    } else {
                        sh.place(c, font);
                    }
                    proof {
                        assert(text0.take(i + 1 as int).drop_last() =~= text0.take(i as int));
                        assert(text0.take(i + 1 as int).last() == text0[i as int]);
                    }
                    i = i + 1;
                }
                proof {
                    assert(text0.take(n as int) =~= text0);
                }
            },
            WrapMode::Character => {
                let mut i: usize = 0;
                while i < n
                    invariant
                        i <= n,
                        n == self.text@.len(),
                        self.text@ == text0,
                        font.wf(),
                        text_bytes_wf(text0),
                        sh.env() == env0,
                        sh.st() == spec_fold_char(st0, env0, *font, text0.take(i as int)),
                    decreases n - i,
                {
                    let c = self.text[i];
                    if c == 10 {
                        sh.new_line();
                    } else {
                        let (_, _, w, _) = font.get_data(c);
                        let cw = px_mul(w as i64, sh.scale);
                        if (sh.cur_w as i128) + (cw as i128) > (sh.maxw as i128) {
                            sh.new_line();
                        }
                        sh.place(c, font);
                    }
                    proof {
                        assert(text0.take(i + 1 as int).drop_last() =~= text0.take(i as int));
                        assert(text0.take(i + 1 as int).last() == text0[i as int]);
                    }
                    i = i + 1;
                }
                proof {
                    assert(text0.take(n as int) =~= text0);
                }
            },
            WrapMode::Word => {
                let mut word: Vec<u8> = Vec::new();
                let mut word_w: i64 = 0;
                let ghost ws0 = WordSt { st: st0, word: Seq::empty(), word_w: 0 };
                let mut i: usize = 0;
                while i < n
                    invariant
                        i <= n,
                        n == self.text@.len(),
                        self.text@ == text0,
                        font.wf(),
                        text_bytes_wf(text0),
                        sh.env() == env0,
                        forall|j: int| 0 <= j < word@.len() ==> word@[j] >= 32,
                        (WordSt { st: sh.st(), word: word@, word_w: word_w as int })
                            == spec_fold_word(ws0, env0, *font, text0.take(i as int)),
                    decreases n - i,
                {
                    let ghost ws_pre = WordSt { st: sh.st(), word: word@, word_w: word_w as int };
                    let c = self.text[i];
                    if c == 32 || c == 10 {
                        if word.len() > 0 {
                            if (sh.cur_w as i128) + (word_w as i128) > (sh.maxw as i128) {
                                sh.new_line();
                            }
                            sh.run(&word, font);
                            word = Vec::new();
                        }
                        word_w = 0;
                        let (_, _, w, _) = font.get_data(32);
                        let cw = px_mul(w as i64, sh.scale);
                        if (sh.cur_w as i128) + (cw as i128) > (sh.maxw as i128) {
                            sh.new_line();
                        }
                        sh.place(32, font);
                        if c == 10 {
                            sh.new_line();
                        }
                    } else {
                        let (_, _, w, _) = font.get_data(c);
                        proof {
                            assert(w == font.entry((c - 32) * 4 + 2));
                        }
                        let gw = px_mul(w as i64, sh.scale);
                        proof {
                            assert(gw == spec_glyph_w(*font, env0.scale, c));
                        }
                        word_w = px_add(word_w, gw);
                        word.push(c);
                    }
                    proof {
                        let ws_post = WordSt { st: sh.st(), word: word@, word_w: word_w as int };
                        if c == 32 || c == 10 {
                            let st1 = if ws_pre.word.len() > 0 {
                                spec_flush_word(ws_pre.st, env0, *font, ws_pre.word, ws_pre.word_w)
                            } else {
                                ws_pre.st
                            };
                            let cw = spec_glyph_w(*font, env0.scale, 32);
                            let st2 = if st1.cur_w + cw > st1.maxw {
                                spec_new_line(st1, env0)
                            } else {
                                st1
                            };
                            let st3 = spec_place(st2, env0, *font, 32);
                            let st4 = if c == 10 {
                                spec_new_line(st3, env0)
                            } else {
                                st3
                            };
                            assert(ws_post.st == st4);
                            assert(ws_post.word =~= Seq::<u8>::empty());
                            assert(ws_post == spec_step_word(ws_pre, env0, *font, c));
                        } else {
                            assert(ws_post.word_w == sat64(
                                ws_pre.word_w + spec_glyph_w(*font, env0.scale, c),
                            ));
                            assert(spec_step_word(ws_pre, env0, *font, c).word_w == sat64(
                                ws_pre.word_w + spec_glyph_w(*font, env0.scale, c),
                            ));
                            assert(ws_post == spec_step_word(ws_pre, env0, *font, c));
                        }
                        assert(text0.take(i + 1 as int).drop_last() =~= text0.take(i as int));
                        assert(text0.take(i + 1 as int).last() == text0[i as int]);
                    }
                    i = i + 1;
                }
                proof {
                    assert(text0.take(n as int) =~= text0);
                }
                if word.len() > 0 {
                    if (sh.cur_w as i128) + (word_w as i128) > (sh.maxw as i128) {
                        sh.new_line();
                    }
                    sh.run(&word, font);
                }
            },
        }
        proof {
            assert(sh.st() == spec_shape_final(
                text0,
                self.wrap,
                *style,
                inl,
                pos,
                *old(context),
                *font,
            ));
        }
        let ghost stf = sh.st();
        if sh.cur.len() > 0 {
            let mut tmp: Vec<UiInstance> = Vec::new();
            core::mem::swap(&mut tmp, &mut sh.cur);
            proof {
                lemma_lines_view_push(sh.lines@, tmp);
            }
            sh.lines.push(tmp);
        }
        let ghost lines1 = lines_view(sh.lines@);
        proof {
            lemma_lines_view_index(sh.lines@);
        }
        let nlines: usize = if sh.lines.len() == 0 {
            1
        } else {
            sh.lines.len()
        };
        let yoff: i64 = if self.mode & 2 == 2 {
            px_half(px_sub(context.parent_size.y, sh.font_size))
        } else {
            0
        };
        let xcenter = self.mode & 1 == 1;
        let mut out: Vec<UiInstance> = Vec::new();
        let m = sh.lines.len();
        let mut li: usize = 0;
        while li < m
            invariant
                li <= m,
                m == sh.lines@.len(),
                lines_view(sh.lines@) == lines1,
                lines1.len() == m,
                forall|k: int| 0 <= k < m ==> lines1[k] == #[trigger] sh.lines@[k]@,
                xcenter == (self.mode & 1 == 1),
                out@ == spec_center_lines(lines1.take(li as int), sh.maxw as int, self.mode, yoff as int),
            decreases m - li,
        {
            let line_len = sh.lines[li].len();
            let mut lw: i64 = 0;
            let mut j: usize = 0;
            while j < line_len
                invariant
                    j <= line_len,
                    li < sh.lines@.len(),
                    line_len == sh.lines@[li as int]@.len(),
                    lw == spec_line_width(sh.lines@[li as int]@.take(j as int)),
                decreases line_len - j,
            {
                let g = sh.lines[li][j];
                lw = px_add(lw, g.width);
                proof {
                    let lv = sh.lines@[li as int]@;
                    assert(lv.take(j + 1 as int).drop_last() =~= lv.take(j as int));
                    assert(lv.take(j + 1 as int).last() == lv[j as int]);
                }
                j = j + 1;
            }
            proof {
                assert(sh.lines@[li as int]@.take(line_len as int) =~= sh.lines@[li as int]@);
            }
            let xoff: i64 = if xcenter {
                px_half(px_sub(sh.maxw, lw))
            } else {
                0
            };
            let ghost shifted = spec_shift_line(sh.lines@[li as int]@, xoff as int, yoff as int);
            let ghost out_base = out@;
            let mut j: usize = 0;
            while j < line_len
                invariant
                    j <= line_len,
                    li < sh.lines@.len(),
                    line_len == sh.lines@[li as int]@.len(),
                    shifted == spec_shift_line(sh.lines@[li as int]@, xoff as int, yoff as int),
                    out@ == out_base + shifted.take(j as int),
                decreases line_len - j,
            {
                let g = sh.lines[li][j];
                out.push(
                    UiInstance {
                        color: g.color,
                        border_color: g.border_color,
                        border: g.border,
                        x: px_add(g.x, xoff),
                        y: px_add(g.y, yoff),
                        width: g.width,
                        height: g.height,
                        corner: g.corner,
                        mode: g.mode,
                    },
                );
                proof {
                    assert(shifted.take(j + 1 as int) =~= shifted.take(j as int).push(
                        shifted[j as int],
                    ));
                    assert(out@ =~= out_base + shifted.take(j + 1 as int));
                }
                j = j + 1;
            }
            proof {
                assert(shifted.take(line_len as int) =~= shifted);
                assert(lines1.take(li + 1 as int).drop_last() =~= lines1.take(li as int));
                assert(lines1.take(li + 1 as int).last() == lines1[li as int]);
                assert(out@ =~= spec_center_lines(
                    lines1.take(li + 1 as int),
                    sh.maxw as int,
                    self.mode,
                    yoff as int,
                ));
            }
            li = li + 1;
        }
        proof {
            assert(lines1.take(m as int) =~= lines1);
        }
        self.comp_text = out;
        context.start_pos.x = sh.cur_w;
        context.start_pos.y = px_add(
            context.start_pos.y,
            px_mul_count(sh.font_size, (nlines - 1) as u64),
        );
        if context.line_offset < sh.font_size {
            context.line_offset = sh.font_size;
        }
    }
}

} // verus!
