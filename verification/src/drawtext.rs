//! Text overlays in the renderer's filter language.

use vstd::prelude::*;
use crate::chars::{chars_of, push_str, string_of};
use crate::decimal::{decimal, decimal_chars};
use crate::escape::{escape_chars, escaped, remove_char, without_char};
use crate::span::Span;
use crate::timestamp::{seconds_chars, seconds_text};
use crate::wrap::{append_chars, wrap_chars, wrapped};

verus! {

/// The width, in characters, that overlay text is wrapped to.
pub const CAPTION_WIDTH: usize = 60;

/// How an overlay looks and where it stands.
#[derive(Clone, Debug)]
pub struct DrawtextOptions {
    pub font: String,
    pub fontcolor: String,
    pub fontsize: u32,
    pub box_: bool,
    pub boxborderw: usize,
    pub boxcolor: String,
    pub x: String,
    pub y: String,
}

/// What a `DrawtextOptions` holds, as plain values.
pub struct DrawtextStyle {
    pub font: Seq<char>,
    pub fontcolor: Seq<char>,
    pub fontsize: nat,
    pub box_: bool,
    pub boxborderw: nat,
    pub boxcolor: Seq<char>,
    pub x: Seq<char>,
    pub y: Seq<char>,
}

impl DrawtextStyle {
    /// The plain style: white 32-point sans-serif text without a box, in
    /// the middle of the picture.
    pub open spec fn plain() -> DrawtextStyle {
        DrawtextStyle {
            font: "Sans"@,
            fontcolor: "white"@,
            fontsize: 32,
            box_: false,
            boxborderw: 15,
            boxcolor: "black@0.8"@,
            x: "(w-text_w)/2"@,
            y: "(h-text_h)/2"@,
        }
    }

    /// The style as filter options: font, colour and size, the box behind
    /// the text, and the position.
    pub open spec fn text(self) -> Seq<char> {
        "font="@ + self.font + ":fontcolor="@ + self.fontcolor + ":fontsize="@ + decimal(
            self.fontsize,
        ) + ":box="@ + (if self.box_ {
            "1"@
        } else {
            "0"@
        }) + ":boxborderw="@ + decimal(self.boxborderw) + ":boxcolor="@ + self.boxcolor + ":x="@
            + self.x + ":y="@ + self.y
    }
}

impl View for DrawtextOptions {
    type V = DrawtextStyle;

    open spec fn view(&self) -> DrawtextStyle {
        DrawtextStyle {
            font: self.font@,
            fontcolor: self.fontcolor@,
            fontsize: self.fontsize as nat,
            box_: self.box_,
            boxborderw: self.boxborderw as nat,
            boxcolor: self.boxcolor@,
            x: self.x@,
            y: self.y@,
        }
    }
}

impl DrawtextOptions {
    /// The characters of the style options.
    pub fn style_chars(&self) -> (out: Vec<char>)
        ensures
            out@ == self@.text(),
    {
        let mut out: Vec<char> = Vec::new();
        push_str(&mut out, "font=");
        push_str(&mut out, self.font.as_str());
        push_str(&mut out, ":fontcolor=");
        push_str(&mut out, self.fontcolor.as_str());
        push_str(&mut out, ":fontsize=");
        let size = decimal_chars(self.fontsize as u128);
        append_chars(&mut out, &size);
        push_str(&mut out, ":box=");
        if self.box_ {
            push_str(&mut out, "1");
        } else {
            push_str(&mut out, "0");
        }
        push_str(&mut out, ":boxborderw=");
        let border = decimal_chars(self.boxborderw as u128);
        append_chars(&mut out, &border);
        push_str(&mut out, ":boxcolor=");
        push_str(&mut out, self.boxcolor.as_str());
        push_str(&mut out, ":x=");
        push_str(&mut out, self.x.as_str());
        push_str(&mut out, ":y=");
        push_str(&mut out, self.y.as_str());
        assert(out@ =~= self@.text());
        out
    }
}

impl Default for DrawtextOptions {
    fn default() -> (out: Self)
        ensures
            out@ == DrawtextStyle::plain(),
    {
        DrawtextOptions {
            font: "Sans".to_owned(),
            fontcolor: "white".to_owned(),
            fontsize: 32,
            box_: false,
            boxborderw: 15,
            boxcolor: "black@0.8".to_owned(),
            x: "(w-text_w)/2".to_owned(),
            y: "(h-text_h)/2".to_owned(),
        }
    }
}

/// The text of an overlay as it stands in the filter: escaped, without line
/// breaks of its own, and wrapped to the caption width.
pub open spec fn overlay_text(text: Seq<char>) -> Seq<char> {
    wrapped(without_char(escaped(text), '\n'), CAPTION_WIDTH as nat)
}

/// The condition under which a caption shows: from `start` on and before
/// `end`, both in seconds.
pub open spec fn enable_text(start: nat, end: nat) -> Seq<char> {
    "'gte(t,"@ + seconds_text(start) + ")*lt(t,"@ + seconds_text(end) + ")'"@
}

/// One overlay of the video: a text, the time it belongs to, and its style.
#[derive(Clone, Debug)]
pub struct CaptionDirective {
    /// The text as it stands in the filter: escaped and wrapped.
    pub text: String,
    /// The start of the time that the overlay belongs to.
    pub start: Span,
    /// The end of that time.
    pub end: Span,
    /// Whether the overlay shows for as long as the picture lasts, in
    /// place of showing from the start on and before the end.
    pub always: bool,
    /// How the overlay looks and where it stands.
    pub style: DrawtextOptions,
}

/// What a `CaptionDirective` holds, as plain values.
pub struct DirectiveModel {
    pub text: Seq<char>,
    pub start: nat,
    pub end: nat,
    pub always: bool,
    pub style: DrawtextStyle,
}

impl View for CaptionDirective {
    type V = DirectiveModel;

    open spec fn view(&self) -> DirectiveModel {
        DirectiveModel {
            text: self.text@,
            start: self.start@,
            end: self.end@,
            always: self.always,
            style: self.style@,
        }
    }
}

impl DirectiveModel {
    /// The caption for a text shown while `start <= t < end`.
    pub open spec fn caption(style: DrawtextStyle, text: Seq<char>, start: nat, end: nat) -> Self {
        DirectiveModel { text: overlay_text(text), start, end, always: false, style }
    }

    /// The overlay for a text that belongs to the time from `start` to
    /// `end` and shows for as long as the picture lasts.
    pub open spec fn lasting(style: DrawtextStyle, text: Seq<char>, start: nat, end: nat) -> Self {
        DirectiveModel { text: overlay_text(text), start, end, always: true, style }
    }

    /// The filter that draws the overlay: the style, the condition under
    /// which it shows unless it shows always, and the text in quotes, with
    /// the renderer's own expansion of the text switched off.
    pub open spec fn filter_text(self) -> Seq<char> {
        "drawtext="@ + self.style.text() + (if self.always {
            Seq::empty()
        } else {
            ":enable="@ + enable_text(self.start, self.end)
        }) + ":expansion=none:text='"@ + self.text + "'"@
    }
}

/// The filter that draws `text` from `start` on and before `end`.
pub open spec fn drawtext_text(
    style: DrawtextStyle,
    text: Seq<char>,
    start: nat,
    end: nat,
) -> Seq<char> {
    DirectiveModel::caption(style, text, start, end).filter_text()
}

impl DrawtextOptions {
    /// A copy of the options.
    pub fn copy(&self) -> (out: Self)
        ensures
            out == *self,
    {
        DrawtextOptions {
            font: self.font.clone(),
            fontcolor: self.fontcolor.clone(),
            fontsize: self.fontsize,
            box_: self.box_,
            boxborderw: self.boxborderw,
            boxcolor: self.boxcolor.clone(),
            x: self.x.clone(),
            y: self.y.clone(),
        }
    }
}

/// The characters of an overlay's text inside the filter.
pub fn overlay_chars(text: &str) -> (out: Vec<char>)
    ensures
        out@ == overlay_text(text@),
{
    let source = chars_of(text);
    let safe = escape_chars(&source);
    let one_line = remove_char(&safe, '\n');
    wrap_chars(&one_line, CAPTION_WIDTH)
}

impl CaptionDirective {
    /// The caption that shows `text` while `start <= t < end`.
    pub fn caption(options: &DrawtextOptions, text: &str, start: Span, end: Span) -> (out: Self)
        ensures
            out@ == DirectiveModel::caption(options@, text@, start@, end@),
    {
        let shown = overlay_chars(text);
        CaptionDirective {
            text: string_of(&shown),
            start,
            end,
            always: false,
            style: options.copy(),
        }
    }

    /// The overlay that shows `text` for as long as the picture lasts.
    pub fn lasting(options: &DrawtextOptions, text: &str, start: Span, end: Span) -> (out: Self)
        ensures
            out@ == DirectiveModel::lasting(options@, text@, start@, end@),
    {
        let shown = overlay_chars(text);
        CaptionDirective {
            text: string_of(&shown),
            start,
            end,
            always: true,
            style: options.copy(),
        }
    }

    /// Builds the filter that draws the overlay.
    pub fn filter(&self) -> (out: String)
        ensures
            out@ == self@.filter_text(),
    {
        let mut out: Vec<char> = Vec::new();
        push_str(&mut out, "drawtext=");
        let style = self.style.style_chars();
        append_chars(&mut out, &style);
        if !self.always {
            push_str(&mut out, ":enable=");
            push_str(&mut out, "'gte(t,");
            let from = seconds_chars(self.start);
            append_chars(&mut out, &from);
            push_str(&mut out, ")*lt(t,");
            let to = seconds_chars(self.end);
            append_chars(&mut out, &to);
            push_str(&mut out, ")'");
        }
        push_str(&mut out, ":expansion=none:text='");
        push_str(&mut out, self.text.as_str());
        push_str(&mut out, "'");
        assert(out@ =~= self@.filter_text());
        string_of(&out)
    }
}

/// Builds the filter that draws `text` while `start <= t < end`.
pub fn drawtext_filter(options: &DrawtextOptions, text: &str, start: Span, end: Span) -> (out:
    String)
    ensures
        out@ == drawtext_text(options@, text@, start@, end@),
{
    CaptionDirective::caption(options, text, start, end).filter()
}

} // verus!
