use reddit_video::config::Config;
use reddit_video::drawtext::{drawtext_filter, overlay_chars, CaptionDirective, DrawtextOptions};
use reddit_video::ffmpeg::FFMpegCommand;
use reddit_video::scratch::{folders, save_voices};
use reddit_video::span::Span;
use reddit_video::timeline::TimelineEntry;
use reddit_video::video::{
    apply_video_audio, build_directives, build_filters, can_render, caption_style, concat_voices,
    join_strings, path_in, render_video, watermark_style,
};
use reddit_video::voice::Voice;

fn clip(text: &str, duration: Span) -> Voice {
    Voice { text: text.to_string(), bytes: Vec::new(), duration }
}

const PLAIN: &str = "font=Sans:fontcolor=white:fontsize=32:box=0:boxborderw=15:boxcolor=black@0.8:x=(w-text_w)/2:y=(h-text_h)/2";
const CAPTION: &str = "font=Serif:fontcolor=white:fontsize=32:box=1:boxborderw=15:boxcolor=black@0.8:x=(w-text_w)/2:y=(h-text_h)/2";
const MARK: &str = "font=Sans:fontcolor=white:fontsize=32:box=0:boxborderw=15:boxcolor=black@0.8:x=w*0.8-text_w/2:y=h*0.3-text_h/2";

#[test]
fn drawtext_options_default_to_the_plain_style() {
    let options = DrawtextOptions::default();
    assert_eq!(options.font, "Sans");
    assert_eq!(options.fontcolor, "white");
    assert_eq!(options.fontsize, 32);
    assert!(!options.box_);
    assert_eq!(options.boxborderw, 15);
    assert_eq!(options.boxcolor, "black@0.8");
    assert_eq!(options.x, "(w-text_w)/2");
    assert_eq!(options.y, "(h-text_h)/2");
    let chars: String = options.style_chars().into_iter().collect();
    assert_eq!(chars, PLAIN);
}

#[test]
fn caption_and_watermark_styles_differ_from_the_plain_one() {
    let caption = caption_style();
    assert_eq!(caption.font, "Serif");
    assert!(caption.box_);
    let mark = watermark_style();
    assert_eq!(mark.x, "w*0.8-text_w/2");
    assert_eq!(mark.y, "h*0.3-text_h/2");
    assert!(!mark.box_);
}

#[test]
fn drawtext_filter_shows_the_text_during_its_window() {
    let filter = drawtext_filter(
        &DrawtextOptions::default(),
        "hello",
        Span::from_secs(2),
        Span::from_millis(5500),
    );
    assert_eq!(
        filter,
        format!("drawtext={PLAIN}:enable='gte(t,2)*lt(t,5.5)':expansion=none:text='hello'")
    );
}

#[test]
fn drawtext_filter_escapes_strips_and_wraps_the_text() {
    let text = "it's 100%: one\ntwo three four five six seven eight nine ten eleven twelve thirteen";
    let filter = drawtext_filter(&caption_style(), text, Span::zero(), Span::from_secs(1));
    assert_eq!(
        filter,
        format!(
            "drawtext={CAPTION}:enable='gte(t,0)*lt(t,1)':expansion=none:text='it''s 100\\%\\: onetwo three four five six seven eight nine\nten eleven twelve thirteen'"
        )
    );
}

#[test]
fn lasting_filter_has_no_window() {
    let directive =
        CaptionDirective::lasting(&watermark_style(), "@me", Span::zero(), Span::from_secs(6));
    assert!(directive.always);
    assert_eq!(directive.start, Span::zero());
    assert_eq!(directive.end, Span::from_secs(6));
    assert_eq!(directive.filter(), format!("drawtext={MARK}:expansion=none:text='@me'"));
}

#[test]
fn a_caption_holds_the_text_as_it_is_drawn() {
    let directive = CaptionDirective::caption(
        &caption_style(),
        "a: b",
        Span::from_secs(1),
        Span::from_millis(2250),
    );
    assert!(!directive.always);
    assert_eq!(directive.text, "a\\: b");
    assert_eq!(directive.start, Span::from_secs(1));
    assert_eq!(directive.end, Span::from_millis(2250));
    assert_eq!(directive.style.font, "Serif");
    assert_eq!(
        directive.filter(),
        format!("drawtext={CAPTION}:enable='gte(t,1)*lt(t,2.25)':expansion=none:text='a\\: b'")
    );
    let shown: String = overlay_chars("a: b").into_iter().collect();
    assert_eq!(shown, directive.text);
    assert_eq!(caption_style().copy().font, "Serif");
}

#[test]
fn three_clips_without_watermark() {
    let voices = vec![
        clip("one", Span::from_secs(2)),
        clip("two", Span::from_secs(3)),
        clip("three", Span::from_secs(1)),
    ];
    let config = Config::default();
    assert!(can_render(&voices));
    let job = render_video(&config, "/tmp/run", &voices);
    assert_eq!(
        job.timeline.entries,
        vec![
            TimelineEntry { start: Span::from_secs(0), end: Span::from_secs(2) },
            TimelineEntry { start: Span::from_secs(2), end: Span::from_secs(5) },
            TimelineEntry { start: Span::from_secs(5), end: Span::from_secs(6) },
        ]
    );
    assert_eq!(job.timeline.total, Span::from_secs(6));
    assert_eq!(job.directives.len(), 3);
    assert_eq!(job.directives[1].text, "two");
    assert_eq!(job.directives[1].start, Span::from_secs(2));
    assert_eq!(job.directives[1].end, Span::from_secs(5));
    assert_eq!(job.filter_path, "/tmp/run/filter.txt");
    assert_eq!(
        job.filter_script,
        format!(
            "drawtext={CAPTION}:enable='gte(t,0)*lt(t,2)':expansion=none:text='one',\
             drawtext={CAPTION}:enable='gte(t,2)*lt(t,5)':expansion=none:text='two',\
             drawtext={CAPTION}:enable='gte(t,5)*lt(t,6)':expansion=none:text='three'"
        )
    );
    assert_eq!(
        job.command.arguments(),
        vec![
            "-i",
            "/tmp/run/video.mp4",
            "-filter_complex_script",
            "/tmp/run/filter.txt",
            "-ss",
            "00:00:00",
            "-to",
            "0:00:08",
            "video.mp4",
        ]
    );
}

#[test]
fn watermark_is_drawn_after_the_captions() {
    let voices = vec![clip("one", Span::from_millis(1500))];
    let mut config = Config::default();
    config.assets.watermark = Some("r/ask: me".to_string());
    config.out.overwrite = true;
    config.out.name = "final.mp4".to_string();
    let job = render_video(&config, "tmp", &voices);
    assert_eq!(
        job.filter_script,
        format!(
            "drawtext={CAPTION}:enable='gte(t,0)*lt(t,1.5)':expansion=none:text='one',\
             drawtext={MARK}:expansion=none:text='r/ask\\: me'"
        )
    );
    assert_eq!(
        job.command.arguments(),
        vec![
            "-y",
            "-i",
            "tmp/video.mp4",
            "-filter_complex_script",
            "tmp/filter.txt",
            "-ss",
            "00:00:00",
            "-to",
            "0:00:03",
            "final.mp4",
        ]
    );
}

#[test]
fn no_clips_give_no_captions() {
    let config = Config::default();
    let job = render_video(&config, "d", &Vec::new());
    assert_eq!(job.filter_script, "");
    assert!(job.timeline.entries.is_empty());
    assert_eq!(job.command.arguments()[7], "0:00:02");
}

#[test]
fn build_filters_follows_the_given_timeline() {
    let voices = vec![clip("a", Span::from_secs(1)), clip("b", Span::from_secs(1))];
    let timeline = reddit_video::timeline::build_timeline(&voices);
    let filters = build_filters(&build_directives(&voices, &timeline, &None));
    assert_eq!(filters.len(), 2);
    assert!(filters[1].contains("enable='gte(t,1)*lt(t,2)'"));
    let directives = build_directives(&voices, &timeline, &Some("w".to_string()));
    assert_eq!(directives.len(), 3);
    assert!(directives[2].always);
    assert_eq!(directives[2].start, Span::zero());
    assert_eq!(directives[2].end, Span::from_secs(2));
    assert_eq!(directives[2].style.x, "w*0.8-text_w/2");
    let marked = build_filters(&directives);
    assert_eq!(marked.len(), 3);
    assert!(!marked[2].contains("enable"));
}

#[test]
fn concat_command_joins_the_listed_clips() {
    let config = Config::default();
    let command = concat_voices(&config, "/s");
    assert_eq!(
        command.arguments(),
        vec!["-f", "concat", "-i", "/s/voices.txt", "-c", "copy", "/s/audio.mp3"]
    );
    assert_eq!(command.show_command(), "ffmpeg -f concat -i /s/voices.txt -c copy /s/audio.mp3");
}

#[test]
fn mux_command_replaces_the_sound() {
    let mut config = Config::default();
    config.out.overwrite = true;
    let command = apply_video_audio(&config, "/s");
    assert_eq!(
        command.arguments(),
        vec![
            "-y",
            "-i",
            "background.mp4",
            "-i",
            "/s/audio.mp3",
            "-map",
            "0:v:0",
            "-map",
            "1:a:0",
            "-c",
            "copy",
            "/s/video.mp4",
        ]
    );
}

#[test]
fn command_collects_arguments_in_order() {
    let mut command = FFMpegCommand::new(false);
    assert!(command.arguments().is_empty());
    assert_eq!(command.show_command(), "ffmpeg ");
    command.arg("-i");
    command.args(&["a.mp4", "-c", "copy"]);
    assert_eq!(command.arguments(), vec!["-i", "a.mp4", "-c", "copy"]);
    assert_eq!(command.show_command(), "ffmpeg -i a.mp4 -c copy");
    let overwriting = FFMpegCommand::new(true);
    assert_eq!(overwriting.arguments(), vec!["-y"]);
    assert_eq!(overwriting.show_command(), "ffmpeg -y");
}

#[test]
fn save_plan_numbers_the_clips() {
    let voices = vec![
        clip("a", Span::zero()),
        clip("b", Span::zero()),
        clip("c", Span::zero()),
    ];
    let plan = save_voices(&voices, "/tmp/rv");
    assert_eq!(
        plan.audio_paths,
        vec!["/tmp/rv/audio/0.mp3", "/tmp/rv/audio/1.mp3", "/tmp/rv/audio/2.mp3"]
    );
    assert_eq!(plan.list_path, "/tmp/rv/voices.txt");
    assert_eq!(
        plan.list_text,
        "file 'audio/0.mp3'\nfile 'audio/1.mp3'\nfile 'audio/2.mp3'"
    );
    assert_eq!(folders(), vec!["audio"]);
}

#[test]
fn save_plan_for_no_clips() {
    let plan = save_voices(&Vec::new(), "d");
    assert!(plan.audio_paths.is_empty());
    assert_eq!(plan.list_text, "");
}

#[test]
fn strings_are_joined_and_paths_built() {
    assert_eq!(join_strings(&vec!["a".to_string(), "b".to_string()], ","), "a,b");
    assert_eq!(join_strings(&vec!["a".to_string()], ","), "a");
    assert_eq!(join_strings(&Vec::new(), ","), "");
    assert_eq!(path_in("dir", "/file"), "dir/file");
}
