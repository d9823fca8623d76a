//! The three calls of the renderer: joining the clips, putting the sound
//! on the background video, and drawing the captions.

use vstd::prelude::*;
use crate::chars::{push_str, string_of, texts_of};
use crate::config::Config;
use crate::drawtext::{CaptionDirective, DirectiveModel, DrawtextOptions, DrawtextStyle};
use crate::ffmpeg::{first_arguments, FFMpegCommand};
use crate::span::Span;
use crate::timeline::{
    build_timeline, checked_total, clip_lengths, end_of, lemma_total_step, start_of, total_nanos,
    Timeline,
};
use crate::timestamp::{timestamp_from_duration, timestamp_text};
use crate::voice::Voice;
use crate::wrap::joined;

verus! {

/// Seconds of video that follow the last clip.
pub const OUTRO_SECS: u64 = 2;

/// The time that follows the last clip, in nanoseconds.
pub open spec fn outro_nanos() -> nat {
    2_000_000_000
}

/// The style of the captions: the plain style in a serif font, with a box
/// behind the text.
pub open spec fn caption_style_model() -> DrawtextStyle {
    DrawtextStyle { font: "Serif"@, box_: true, ..DrawtextStyle::plain() }
}

/// The style of the watermark: the plain style, moved up and to the right.
pub open spec fn watermark_style_model() -> DrawtextStyle {
    DrawtextStyle { x: "w*0.8-text_w/2"@, y: "h*0.3-text_h/2"@, ..DrawtextStyle::plain() }
}

/// The style of the captions.
pub fn caption_style() -> (out: DrawtextOptions)
    ensures
        out@ == caption_style_model(),
{
    let mut out = DrawtextOptions::default();
    out.font = "Serif".to_owned();
    out.box_ = true;
    out
}

/// The style of the watermark.
pub fn watermark_style() -> (out: DrawtextOptions)
    ensures
        out@ == watermark_style_model(),
{
    let mut out = DrawtextOptions::default();
    out.x = "w*0.8-text_w/2".to_owned();
    out.y = "h*0.3-text_h/2".to_owned();
    out
}

/// The caption of clip `i`: its text, shown from the clip's start on and
/// before its end.
pub open spec fn caption_directive(voices: Seq<Voice>, i: int) -> DirectiveModel {
    DirectiveModel::caption(
        caption_style_model(),
        voices[i].text@,
        start_of(clip_lengths(voices), i),
        end_of(clip_lengths(voices), i),
    )
}

/// The watermark: a text that belongs to the whole time from zero to the
/// end of the last clip and shows for as long as the picture lasts.
pub open spec fn watermark_directive(voices: Seq<Voice>, mark: Seq<char>) -> DirectiveModel {
    DirectiveModel::lasting(watermark_style_model(), mark, 0, total_nanos(clip_lengths(voices)))
}

/// The captions of all clips, in their order.
pub open spec fn caption_directives(voices: Seq<Voice>) -> Seq<DirectiveModel> {
    Seq::new(voices.len(), |i: int| caption_directive(voices, i))
}

/// All overlays: one caption for each clip and, where there is a
/// watermark, one more overlay for it behind them.
pub open spec fn overlay_directives(voices: Seq<Voice>, watermark: Option<String>) -> Seq<
    DirectiveModel,
> {
    match watermark {
        Some(mark) => caption_directives(voices).push(watermark_directive(voices, mark@)),
        None => caption_directives(voices),
    }
}

/// The views of overlays.
pub open spec fn directive_models(directives: Seq<CaptionDirective>) -> Seq<DirectiveModel> {
    Seq::new(directives.len(), |i: int| directives[i]@)
}

/// The filters that draw overlays, in their order.
pub open spec fn filter_texts(directives: Seq<DirectiveModel>) -> Seq<Seq<char>> {
    Seq::new(directives.len(), |i: int| directives[i].filter_text())
}

/// The filters of all overlays of a video.
pub open spec fn overlay_filters(voices: Seq<Voice>, watermark: Option<String>) -> Seq<Seq<char>> {
    filter_texts(overlay_directives(voices, watermark))
}

/// A file's path inside a directory.
pub fn path_in(dir: &str, name: &str) -> (out: String)
    ensures
        out@ == dir@ + name@,
{
    let mut out: Vec<char> = Vec::new();
    push_str(&mut out, dir);
    push_str(&mut out, name);
    string_of(&out)
}

/// Puts texts in a row with `sep` between each two.
pub fn join_strings(items: &Vec<String>, sep: &str) -> (out: String)
    ensures
        out@ == joined(texts_of(items@), sep@),
{
    let mut out: Vec<char> = Vec::new();
    let mut i: usize = 0;
    assert(texts_of(items@).take(0) =~= Seq::<Seq<char>>::empty());
    while i < items.len()
        invariant
            i <= items.len(),
            out@ == joined(texts_of(items@).take(i as int), sep@),
        decreases items.len() - i,
    {
        proof {
            assert(texts_of(items@).take(i + 1).drop_last() =~= texts_of(items@).take(i as int));
            assert(texts_of(items@).take(i + 1).last() == items@[i as int]@);
            if i == 0 {
                assert(texts_of(items@).take(1)[0] == items@[0]@);
            }
        }
        if i > 0 {
            push_str(&mut out, sep);
        }
        push_str(&mut out, items[i].as_str());
        i += 1;
        assert(out@ =~= joined(texts_of(items@).take(i as int), sep@));
    }
    assert(texts_of(items@).take(i as int) =~= texts_of(items@));
    string_of(&out)
}

/// Builds the overlays for the clips on their timeline.
pub fn build_directives(
    voices: &Vec<Voice>,
    timeline: &Timeline,
    watermark: &Option<String>,
) -> (out: Vec<CaptionDirective>)
    requires
        timeline.follows(clip_lengths(voices@)),
    ensures
        directive_models(out@) == overlay_directives(voices@, *watermark),
{
    let style = caption_style();
    let mut out: Vec<CaptionDirective> = Vec::new();
    let mut i: usize = 0;
    assert(directive_models(out@) =~= caption_directives(voices@).take(0));
    while i < voices.len()
        invariant
            i <= voices.len(),
            timeline.follows(clip_lengths(voices@)),
            style@ == caption_style_model(),
            directive_models(out@) == caption_directives(voices@).take(i as int),
        decreases voices.len() - i,
    {
        let ghost before = directive_models(out@);
        proof {
            lemma_total_step(clip_lengths(voices@), i as int);
        }
        let entry = timeline.entries[i];
        let directive = CaptionDirective::caption(
            &style,
            voices[i].text.as_str(),
            entry.start,
            entry.end,
        );
        assert(directive@ == caption_directive(voices@, i as int));
        out.push(directive);
        i += 1;
        assert(directive_models(out@) =~= before.push(directive@));
        assert(directive_models(out@) =~= caption_directives(voices@).take(i as int));
    }
    assert(caption_directives(voices@).take(i as int) =~= caption_directives(voices@));
    match watermark {
        Some(mark) => {
            let ghost before = directive_models(out@);
            let style = watermark_style();
            let directive = CaptionDirective::lasting(
                &style,
                mark.as_str(),
                Span::zero(),
                timeline.total,
            );
            out.push(directive);
            assert(directive_models(out@) =~= before.push(directive@));
        },
        None => {},
    }
    out
}

/// Builds the filters that draw overlays, in their order.
pub fn build_filters(directives: &Vec<CaptionDirective>) -> (out: Vec<String>)
    ensures
        texts_of(out@) == filter_texts(directive_models(directives@)),
{
    let mut out: Vec<String> = Vec::new();
    let mut i: usize = 0;
    assert(texts_of(out@) =~= filter_texts(directive_models(directives@)).take(0));
    while i < directives.len()
        invariant
            i <= directives.len(),
            texts_of(out@) == filter_texts(directive_models(directives@)).take(i as int),
        decreases directives.len() - i,
    {
        let ghost before = texts_of(out@);
        let filter = directives[i].filter();
        out.push(filter);
        i += 1;
        assert(texts_of(out@) =~= before.push(filter@));
        assert(texts_of(out@) =~= filter_texts(directive_models(directives@)).take(i as int));
    }
    assert(filter_texts(directive_models(directives@)).take(i as int) =~= filter_texts(
        directive_models(directives@),
    ));
    out
}

/// The arguments that join the clips named in the list file into one
/// sound file, without encoding anew.
pub open spec fn concat_arguments(overwrite: bool, dir: Seq<char>) -> Seq<Seq<char>> {
    first_arguments(overwrite) + seq![
        "-f"@,
        "concat"@,
        "-i"@,
        dir + "/voices.txt"@,
        "-c"@,
        "copy"@,
        dir + "/audio.mp3"@,
    ]
}

/// The arguments that put the joined sound in place of the background
/// video's own, both copied as they are.
pub open spec fn mux_arguments(overwrite: bool, background: Seq<char>, dir: Seq<char>) -> Seq<
    Seq<char>,
> {
    first_arguments(overwrite) + seq![
        "-i"@,
        background,
        "-i"@,
        dir + "/audio.mp3"@,
        "-map"@,
        "0:v:0"@,
        "-map"@,
        "1:a:0"@,
        "-c"@,
        "copy"@,
        dir + "/video.mp4"@,
    ]
}

/// The arguments that draw the overlays of the filter file on the video
/// and cut it off after `total` nanoseconds and the outro.
pub open spec fn render_arguments(
    overwrite: bool,
    dir: Seq<char>,
    total: nat,
    name: Seq<char>,
) -> Seq<Seq<char>> {
    first_arguments(overwrite) + seq![
        "-i"@,
        dir + "/video.mp4"@,
        "-filter_complex_script"@,
        dir + "/filter.txt"@,
        "-ss"@,
        "00:00:00"@,
        "-to"@,
        timestamp_text((total + outro_nanos()) / 1_000_000_000),
        name,
    ]
}

/// The command that joins the clips into one sound file.
pub fn concat_voices(config: &Config, dir: &str) -> (out: FFMpegCommand)
    ensures
        out@ == concat_arguments(config.out.overwrite, dir@),
{
    let mut ffmpeg = FFMpegCommand::new(config.out.overwrite);
    ffmpeg.arg("-f");
    ffmpeg.arg("concat");
    ffmpeg.arg("-i");
    ffmpeg.arg(path_in(dir, "/voices.txt").as_str());
    ffmpeg.arg("-c");
    ffmpeg.arg("copy");
    ffmpeg.arg(path_in(dir, "/audio.mp3").as_str());
    assert(ffmpeg@ =~= concat_arguments(config.out.overwrite, dir@));
    ffmpeg
}

/// The command that puts the joined sound on the background video.
pub fn apply_video_audio(config: &Config, dir: &str) -> (out: FFMpegCommand)
    ensures
        out@ == mux_arguments(config.out.overwrite, config.assets.background@, dir@),
{
    let mut ffmpeg = FFMpegCommand::new(config.out.overwrite);
    ffmpeg.arg("-i");
    ffmpeg.arg(config.assets.background.as_str());
    ffmpeg.arg("-i");
    ffmpeg.arg(path_in(dir, "/audio.mp3").as_str());
    ffmpeg.arg("-map");
    ffmpeg.arg("0:v:0");
    ffmpeg.arg("-map");
    ffmpeg.arg("1:a:0");
    ffmpeg.arg("-c");
    ffmpeg.arg("copy");
    ffmpeg.arg(path_in(dir, "/video.mp4").as_str());
    assert(ffmpeg@ =~= mux_arguments(config.out.overwrite, config.assets.background@, dir@));
    ffmpeg
}

/// What the last call of the renderer needs: the filter file to write
/// first, and the command.
#[derive(Clone, Debug)]
pub struct RenderJob {
    /// When each clip plays.
    pub timeline: Timeline,
    /// The overlays: one caption for each clip, then the watermark if
    /// there is one.
    pub directives: Vec<CaptionDirective>,
    /// Where the filter file goes.
    pub filter_path: String,
    /// What the filter file holds.
    pub filter_script: String,
    /// The command to run once the file is written.
    pub command: FFMpegCommand,
}

/// Whether the clips and the outro together are a length of time that the
/// machine's numbers hold.
pub open spec fn renderable(voices: Seq<Voice>) -> bool {
    total_nanos(clip_lengths(voices)) + outro_nanos() <= u128::MAX
}

/// Tells whether the clips can be rendered.
pub fn can_render(voices: &Vec<Voice>) -> (out: bool)
    ensures
        out == renderable(voices@),
{
    match checked_total(voices) {
        Some(total) => total.checked_add(Span::from_secs(OUTRO_SECS)).is_some(),
        None => false,
    }
}

/// Plans the last call of the renderer: one caption per clip, shown while
/// the clip plays, the watermark if there is one, and the video cut off
/// two seconds after the last clip.
pub fn render_video(config: &Config, dir: &str, voices: &Vec<Voice>) -> (out: RenderJob)
    requires
        renderable(voices@),
    ensures
        out.timeline.follows(clip_lengths(voices@)),
        directive_models(out.directives@) == overlay_directives(voices@, config.assets.watermark),
        out.filter_path@ == dir@ + "/filter.txt"@,
        out.filter_script@ == joined(overlay_filters(voices@, config.assets.watermark), ","@),
        out.command@ == render_arguments(
            config.out.overwrite,
            dir@,
            total_nanos(clip_lengths(voices@)),
            config.out.name@,
        ),
{
    let timeline = build_timeline(voices);
    let directives = build_directives(voices, &timeline, &config.assets.watermark);
    let filters = build_filters(&directives);
    let filter_script = join_strings(&filters, ",");
    let filter_path = path_in(dir, "/filter.txt");
    let end = timeline.total.plus(Span::from_secs(OUTRO_SECS));
    let mut ffmpeg = FFMpegCommand::new(config.out.overwrite);
    ffmpeg.arg("-i");
    ffmpeg.arg(path_in(dir, "/video.mp4").as_str());
    ffmpeg.arg("-filter_complex_script");
    ffmpeg.arg(filter_path.as_str());
    ffmpeg.arg("-ss");
    ffmpeg.arg("00:00:00");
    ffmpeg.arg("-to");
    ffmpeg.arg(timestamp_from_duration(end).as_str());
    ffmpeg.arg(config.out.name.as_str());
    assert(ffmpeg@ =~= render_arguments(
        config.out.overwrite,
        dir@,
        total_nanos(clip_lengths(voices@)),
        config.out.name@,
    ));
    RenderJob { timeline, directives, filter_path, filter_script, command: ffmpeg }
}

} // verus!
