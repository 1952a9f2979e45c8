//! The subtitle document serializer and merger.
//!
//! The document text is pinned down, character for character, by the spec
//! functions here: a fixed metadata preamble keyed by the canvas
//! configuration, one style line per category, one event line per drawable,
//! and — optionally — the event lines of an externally supplied document
//! spliced in after the engine's own.

use vstd::prelude::*;
use vstd::string::StrSliceExecFns;
use vstd::string::StringExecFns;

use crate::canvas::{CanvasConfig, ConfigModel};
use crate::danmu::DanmuType;
use crate::drawable::{DrawEffectModel, Drawable, DrawableModel};
use crate::fmt::{ass_time, dec_str, hex2, int_str, push_dec_i64, push_dec_u64, push_hex2, push_time};
use crate::text::push_char;

verus! {

/// How one character of comment text is serialized: newlines become the
/// format's explicit line break, carriage returns disappear, and braces —
/// which would open or close an inline directive block — become their
/// fullwidth look-alikes.
pub open spec fn esc_char(ch: char) -> Seq<char> {
    if ch == '\n' {
        seq!['\\', 'N']
    } else if ch == '\r' {
        seq![]
    } else if ch == '{' {
        seq!['｛']
    } else if ch == '}' {
        seq!['｝']
    } else {
        seq![ch]
    }
}

/// A comment text with every character serialized.
pub open spec fn escaped(s: Seq<char>) -> Seq<char>
    decreases s.len(),
{
    if s.len() == 0 {
        Seq::empty()
    } else {
        escaped(s.drop_last()) + esc_char(s.last())
    }
}

/// An outline width in tenths of a pixel, printed as its decimal value
/// without trailing zeros, as `0.8` or `1`.
pub open spec fn outline_str(t: int) -> Seq<char> {
    if t % 10 == 0 {
        dec_str((t / 10) as nat)
    } else {
        dec_str((t / 10) as nat) + "."@ + dec_str((t % 10) as nat)
    }
}

/// One style definition line.  All three categories share the same styling;
/// only the name differs.  The primary and outline colors carry the alpha
/// derived from the configured opacity.
pub open spec fn style_line(name: Seq<char>, c: ConfigModel) -> Seq<char> {
    "Style: "@ + name + ","@ + c.font + ","@ + dec_str(c.font_size as nat) + ",&H"@ + hex2(
        c.opacity,
    ) + "FFFFFF,&H00FFFFFF,&H"@ + hex2(c.opacity) + "000000,&H00000000,"@ + dec_str(
        c.bold as nat,
    ) + ", 0, 0, 0, 100, 100, 0.00, 0.00, 1, "@ + outline_str(c.outline_tenths)
        + ", 0, 7, 0, 0, 0, 1\n"@
}

/// The fixed preamble of a document: script metadata keyed by the title and
/// canvas size, the three style definitions, and the event section header.
pub open spec fn preamble(title: Seq<char>, c: ConfigModel) -> Seq<char> {
    "[Script Info]\n; Script generated by danmu2ass\nTitle: "@ + title
        + "\nScript Updated By: danmu2ass (https://github.com/gwy15/danmu2ass)\nScriptType: v4.00+\nPlayResX: "@
        + dec_str(c.width as nat) + "\nPlayResY: "@ + dec_str(c.height as nat) + "\nAspect Ratio: "@
        + dec_str(c.width as nat) + ":"@ + dec_str(c.height as nat)
        + "\nCollisions: Normal\nWrapStyle: 2\nScaledBorderAndShadow: yes\nYCbCr Matrix: TV.601\n\n\n[V4+ Styles]\nFormat: Name, Fontname, Fontsize, PrimaryColour, SecondaryColour, OutlineColour, BackColour, Bold, Italic, Underline, StrikeOut, ScaleX, ScaleY, Spacing, Angle, BorderStyle, Outline, Shadow, Alignment, MarginL, MarginR, MarginV, Encoding\n"@
        + style_line("Float"@, c) + style_line("Bottom"@, c) + style_line("Top"@, c)
        + "\n[Events]\nFormat: Layer, Start, End, Style, Name, MarginL, MarginR, MarginV, Effect, Text\n"@
}

/// The style a category's events reference.
pub open spec fn style_name(kind: DanmuType) -> Seq<char> {
    match kind {
        DanmuType::Float => "Float"@,
        DanmuType::Bottom => "Bottom"@,
        DanmuType::Top => "Top"@,
    }
}

/// The inline motion or position directive of one event.
pub open spec fn effect_str(e: DrawEffectModel) -> Seq<char> {
    match e {
        DrawEffectModel::Move { start_x, start_y, end_x, end_y } => "{\\move("@ + int_str(start_x)
            + ", "@ + int_str(start_y) + ", "@ + int_str(end_x) + ", "@ + int_str(end_y) + ")"@,
        DrawEffectModel::Pos { x, y } => "{\\pos("@ + int_str(x) + ", "@ + int_str(y) + ")"@,
    }
}

/// One event line: layer, display window, style, the inline directive
/// block with the color override in the format's blue-green-red order, and
/// the serialized text.
pub open spec fn event_line(d: DrawableModel) -> Seq<char> {
    "Dialogue: 2,"@ + ass_time(d.start_cs) + ","@ + ass_time(d.end_cs) + ","@ + style_name(d.kind)
        + ",,0,0,0,,"@ + effect_str(d.effect) + "\\c&H"@ + hex2(d.rgb.2 as int) + hex2(
        d.rgb.1 as int,
    ) + hex2(d.rgb.0 as int) + "&}"@ + escaped(d.content) + "\n"@
}

/// A line with a trailing carriage return removed, so documents with
/// either line ending merge alike.
pub open spec fn trim_cr(l: Seq<char>) -> Seq<char> {
    if l.len() > 0 && l.last() == '\r' {
        l.drop_last()
    } else {
        l
    }
}

/// The header line that opens a document's event section.
pub open spec fn is_events_header(l: Seq<char>) -> bool {
    l == "[Events]"@
}

/// An event line of a document.
pub open spec fn is_dialogue_line(l: Seq<char>) -> bool {
    l.len() >= 9 && l.take(9) == "Dialogue:"@
}

/// What one finished line contributes to a merge: itself, newline
/// terminated, when it is an event line inside the event section.
pub open spec fn merge_line(in_events: bool, cur: Seq<char>) -> Seq<char> {
    let line = trim_cr(cur);
    if in_events && is_dialogue_line(line) {
        line + "\n"@
    } else {
        Seq::empty()
    }
}

/// Scans the supplied text from position `i`, with the line read so far in
/// `cur`, collecting the event lines of its event section.
pub open spec fn merge_scan(s: Seq<char>, i: int, in_events: bool, cur: Seq<char>) -> Seq<char>
    decreases s.len() - i,
{
    if i < 0 || i >= s.len() {
        if cur.len() == 0 {
            Seq::empty()
        } else {
            merge_line(in_events, cur)
        }
    } else if s[i] == '\n' {
        merge_line(in_events, cur) + merge_scan(
            s,
            i + 1,
            in_events || is_events_header(trim_cr(cur)),
            Seq::empty(),
        )
    } else {
        merge_scan(s, i + 1, in_events, cur.push(s[i]))
    }
}

/// The event lines found in an external document, in order, newline
/// terminated.
pub open spec fn merged_events(s: Seq<char>) -> Seq<char> {
    merge_scan(s, 0, false, Seq::empty())
}

/// The length of a line once a trailing carriage return is dropped.
fn trim_len(cur: &Vec<char>) -> (r: usize)
    ensures
        trim_cr(cur@) == cur@.take(r as int),
        r <= cur@.len(),
{
    let n = cur.len();
    if n > 0 && cur[n - 1] == '\r' {
        assert(cur@.take(n as int - 1) =~= cur@.drop_last());
        n - 1
    } else {
        assert(cur@.take(n as int) =~= cur@);
        n
    }
}

/// Whether the line read so far is an event line.
fn line_is_dialogue(cur: &Vec<char>) -> (r: bool)
    ensures
        r == is_dialogue_line(trim_cr(cur@)),
{
    let tl = trim_len(cur);
    let tag = crate::text::str_chars("Dialogue:");
    proof {
        reveal_strlit("Dialogue:");
    }
    if tl < 9 {
        return false;
    }
    for j in 0..9usize
        invariant
            tag@ == "Dialogue:"@,
            tag@.len() == 9,
            9 <= tl <= cur@.len(),
            trim_cr(cur@) == cur@.take(tl as int),
            forall|q: int| 0 <= q < j ==> cur@[q] == "Dialogue:"@[q],
    {
        if cur[j] != tag[j] {
            assert(trim_cr(cur@).take(9)[j as int] != "Dialogue:"@[j as int]);
            return false;
        }
    }
    assert(trim_cr(cur@).take(9) =~= "Dialogue:"@);
    true
}

/// Whether the line read so far is the event section header.
fn line_is_events_header(cur: &Vec<char>) -> (r: bool)
    ensures
        r == is_events_header(trim_cr(cur@)),
{
    let tl = trim_len(cur);
    let tag = crate::text::str_chars("[Events]");
    proof {
        reveal_strlit("[Events]");
    }
    if tl != 8 {
        assert(trim_cr(cur@).len() == tl);
        assert("[Events]"@.len() == 8);
        return false;
    }
    for j in 0..8usize
        invariant
            tag@ == "[Events]"@,
            tag@.len() == 8,
            tl == 8,
            tl <= cur@.len(),
            trim_cr(cur@) == cur@.take(tl as int),
            forall|q: int| 0 <= q < j ==> cur@[q] == "[Events]"@[q],
    {
        if cur[j] != tag[j] {
            assert(trim_cr(cur@)[j as int] != "[Events]"@[j as int]);
            return false;
        }
    }
    assert(trim_cr(cur@) =~= "[Events]"@);
    true
}

/// Appends the first `to` characters of `v`.
fn push_chars_to(buf: &mut String, v: &Vec<char>, to: usize)
    requires
        to <= v@.len(),
    ensures
        final(buf)@ == old(buf)@ + v@.take(to as int),
{
    let mut i: usize = 0;
    while i < to
        invariant
            i <= to <= v@.len(),
            buf@ == old(buf)@ + v@.take(i as int),
        decreases to - i,
    {
        push_char(buf, v[i]);
        assert(v@.take(i as int).push(v@[i as int]) =~= v@.take(i as int + 1));
        i = i + 1;
    }
}

/// The subtitle document under construction.  `buf` only ever grows: the
/// preamble first, then one event line per written drawable, then merged
/// external event lines.
pub struct AssCreator {
    pub buf: String,
}

/// Appends every character of `v` starting at index `from`.
fn push_chars_from(buf: &mut String, v: &Vec<char>, from: usize)
    requires
        from <= v@.len(),
    ensures
        final(buf)@ == old(buf)@ + v@.skip(from as int),
{
    let n = v.len();
    let mut i = from;
    while i < n
        invariant
            from <= i <= n,
            n == v@.len(),
            buf@ == old(buf)@ + v@.subrange(from as int, i as int),
        decreases n - i,
    {
        push_char(buf, v[i]);
        assert(v@.subrange(from as int, i as int).push(v@[i as int]) =~= v@.subrange(
            from as int,
            i as int + 1,
        ));
        i = i + 1;
    }
    assert(v@.subrange(from as int, n as int) =~= v@.skip(from as int));
}

/// Appends the serialized form of a comment text.
fn push_escaped(buf: &mut String, s: &String)
    ensures
        final(buf)@ == old(buf)@ + escaped(s@),
{
    let chars = crate::text::str_chars(s.as_str());
    let n = chars.len();
    for i in 0..n
        invariant
            n == chars@.len(),
            chars@ == s@,
            buf@ == old(buf)@ + escaped(s@.take(i as int)),
    {
        let ch = chars[i];
        if ch == '\n' {
            buf.append("\\N");
        } else if ch == '\r' {
        } else if ch == '{' {
            push_char(buf, '｛');
        } else if ch == '}' {
            push_char(buf, '｝');
        } else {
            push_char(buf, ch);
        }
        proof {
            assert(s@.take(i as int + 1).drop_last() =~= s@.take(i as int));
            assert(s@.take(i as int + 1).last() == s@[i as int]);
            reveal_strlit("\\N");
            assert(buf@ =~= old(buf)@ + escaped(s@.take(i as int + 1)));
        }
    }
    assert(s@.take(n as int) =~= s@);
}

/// Appends the outline width, trimming a zero fraction as the reference
/// renderer's float formatting does.
fn push_outline(buf: &mut String, tenths: u8)
    ensures
        final(buf)@ == old(buf)@ + outline_str(tenths as int),
{
    if tenths % 10 == 0 {
        push_dec_u64(buf, (tenths / 10) as u64);
    } else {
        push_dec_u64(buf, (tenths / 10) as u64);
        buf.append(".");
        push_dec_u64(buf, (tenths % 10) as u64);
        assert(buf@ =~= old(buf)@ + outline_str(tenths as int));
    }
}

/// Appends the inline motion or position directive.
fn push_effect(buf: &mut String, effect: &crate::drawable::DrawEffect)
    ensures
        final(buf)@ == old(buf)@ + effect_str(effect@),
{
    match effect {
        crate::drawable::DrawEffect::Move { start_x, start_y, end_x, end_y } => {
            buf.append("{\\move(");
            push_dec_i64(buf, *start_x);
            buf.append(", ");
            push_dec_i64(buf, *start_y);
            buf.append(", ");
            push_dec_i64(buf, *end_x);
            buf.append(", ");
            push_dec_i64(buf, *end_y);
            buf.append(")");
            assert(buf@ =~= old(buf)@ + effect_str(effect@));
        },
        crate::drawable::DrawEffect::Pos { x, y } => {
            buf.append("{\\pos(");
            push_dec_i64(buf, *x);
            buf.append(", ");
            push_dec_i64(buf, *y);
            buf.append(")");
            assert(buf@ =~= old(buf)@ + effect_str(effect@));
        },
    }
}

/// Appends a category's style name.
fn push_style_name(buf: &mut String, kind: DanmuType)
    ensures
        final(buf)@ == old(buf)@ + style_name(kind),
{
    match kind {
        DanmuType::Float => buf.append("Float"),
        DanmuType::Bottom => buf.append("Bottom"),
        DanmuType::Top => buf.append("Top"),
    }
}

impl AssCreator {
    /// Appends one style definition line.
    fn push_style_line(&mut self, name: &str, config: &CanvasConfig)
        ensures
            final(self).buf@ == old(self).buf@ + style_line(name@, config@),
    {
        self.buf.append("Style: ");
        self.buf.append(name);
        self.buf.append(",");
        self.buf.append(config.font.as_str());
        self.buf.append(",");
        push_dec_u64(&mut self.buf, config.font_size as u64);
        self.buf.append(",&H");
        push_hex2(&mut self.buf, config.opacity);
        self.buf.append("FFFFFF,&H00FFFFFF,&H");
        push_hex2(&mut self.buf, config.opacity);
        self.buf.append("000000,&H00000000,");
        push_dec_u64(&mut self.buf, config.bold as u64);
        self.buf.append(", 0, 0, 0, 100, 100, 0.00, 0.00, 1, ");
        push_outline(&mut self.buf, config.outline_tenths);
        self.buf.append(", 0, 7, 0, 0, 0, 1\n");
        assert(self.buf@ =~= old(self).buf@ + style_line(name@, config@));
    }

    /// Starts a document: the whole preamble, keyed by title and
    /// configuration.
    pub fn new(title: &str, config: &CanvasConfig) -> (r: AssCreator)
        ensures
            r.buf@ == preamble(title@, config@),
    {
        let mut r = AssCreator { buf: String::new() };
        r.buf.append("[Script Info]\n; Script generated by danmu2ass\nTitle: ");
        r.buf.append(title);
        r.buf.append(
            "\nScript Updated By: danmu2ass (https://github.com/gwy15/danmu2ass)\nScriptType: v4.00+\nPlayResX: ",
        );
        push_dec_u64(&mut r.buf, config.width as u64);
        r.buf.append("\nPlayResY: ");
        push_dec_u64(&mut r.buf, config.height as u64);
        r.buf.append("\nAspect Ratio: ");
        push_dec_u64(&mut r.buf, config.width as u64);
        r.buf.append(":");
        push_dec_u64(&mut r.buf, config.height as u64);
        r.buf.append(
            "\nCollisions: Normal\nWrapStyle: 2\nScaledBorderAndShadow: yes\nYCbCr Matrix: TV.601\n\n\n[V4+ Styles]\nFormat: Name, Fontname, Fontsize, PrimaryColour, SecondaryColour, OutlineColour, BackColour, Bold, Italic, Underline, StrikeOut, ScaleX, ScaleY, Spacing, Angle, BorderStyle, Outline, Shadow, Alignment, MarginL, MarginR, MarginV, Encoding\n",
        );
        r.push_style_line("Float", config);
        r.push_style_line("Bottom", config);
        r.push_style_line("Top", config);
        r.buf.append(
            "\n[Events]\nFormat: Layer, Start, End, Style, Name, MarginL, MarginR, MarginV, Effect, Text\n",
        );
        assert(r.buf@ =~= preamble(title@, config@));
        r
    }

    /// Appends exactly one event line for a placed comment.
    #[verifier::rlimit(60)]
    pub fn write(&mut self, drawable: Drawable)
        ensures
            final(self).buf@ == old(self).buf@ + event_line(drawable@),
    {
        self.buf.append("Dialogue: 2,");
        push_time(&mut self.buf, drawable.start_cs);
        self.buf.append(",");
        push_time(&mut self.buf, drawable.end_cs);
        self.buf.append(",");
        push_style_name(&mut self.buf, drawable.kind);
        self.buf.append(",,0,0,0,,");
        assert(self.buf@ =~= old(self).buf@ + "Dialogue: 2,"@ + ass_time(drawable@.start_cs) + ","@
            + ass_time(drawable@.end_cs) + ","@ + style_name(drawable@.kind) + ",,0,0,0,,"@);
        push_effect(&mut self.buf, &drawable.effect);
        self.buf.append("\\c&H");
        push_hex2(&mut self.buf, drawable.rgb.2);
        push_hex2(&mut self.buf, drawable.rgb.1);
        push_hex2(&mut self.buf, drawable.rgb.0);
        self.buf.append("&}");
        push_escaped(&mut self.buf, &drawable.content);
        self.buf.append("\n");
        assert(self.buf@ =~= old(self).buf@ + event_line(drawable@));
    }

    /// Splices in the event lines of an externally supplied document: every
    /// `Dialogue:` line after an `[Events]` header is appended, in order and
    /// unchanged; everything else in the supplied text is ignored.
    pub fn merge(&mut self, other: &str)
        ensures
            final(self).buf@ == old(self).buf@ + merged_events(other@),
    {
        let chars = crate::text::str_chars(other);
        let n = chars.len();
        let mut cur: Vec<char> = Vec::new();
        let mut in_events = false;
        for i in 0..n
            invariant
                n == chars@.len(),
                chars@ == other@,
                old(self).buf@ + merged_events(other@) =~= self.buf@ + merge_scan(
                    other@,
                    i as int,
                    in_events,
                    cur@,
                ),
        {
            let ch = chars[i];
            if ch == '\n' {
                let ghost pre = self.buf@;
                let ghost ev0 = in_events;
                let ghost cur0 = cur@;
                if in_events && line_is_dialogue(&cur) {
                    let tl = trim_len(&cur);
                    push_chars_to(&mut self.buf, &cur, tl);
                    push_char(&mut self.buf, '\n');
                    proof {
                        reveal_strlit("\n");
                        assert(self.buf@ =~= pre + merge_line(ev0, cur0));
                    }
                } else {
                    assert(self.buf@ =~= pre + merge_line(ev0, cur0));
                }
                if line_is_events_header(&cur) {
                    in_events = true;
                }
                cur = Vec::new();
                proof {
                    assert(merge_scan(other@, i as int, ev0, cur0) == merge_line(ev0, cur0)
                        + merge_scan(other@, i as int + 1, in_events, cur@));
                    assert(old(self).buf@ + merged_events(other@) =~= self.buf@ + merge_scan(
                        other@,
                        i as int + 1,
                        in_events,
                        cur@,
                    ));
                }
            } else {
                cur.push(ch);
            }
        }
        let ghost pre = self.buf@;
        let ghost cur0 = cur@;
        if cur.len() > 0 {
            if in_events && line_is_dialogue(&cur) {
                let tl = trim_len(&cur);
                push_chars_to(&mut self.buf, &cur, tl);
                push_char(&mut self.buf, '\n');
                proof {
                    reveal_strlit("\n");
                    assert(self.buf@ =~= pre + merge_line(in_events, cur0));
                }
            } else {
                assert(merge_scan(other@, n as int, in_events, cur0) == merge_line(
                    in_events,
                    cur0,
                ));
                assert(merge_line(in_events, cur0) =~= Seq::<char>::empty());
            }
        }
        assert(self.buf@ =~= old(self).buf@ + merged_events(other@));
    }
}

/// Idempotent merge: splicing in an empty external document leaves the
/// document unchanged.
pub proof fn lemma_merge_empty()
    ensures
        merged_events(Seq::<char>::empty()) == Seq::<char>::empty(),
{
}

} // verus!
