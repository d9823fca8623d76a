//! Settings of a run, with the value each takes where none is given.

use vstd::prelude::*;
use crate::chars::string_of;
use crate::decimal::{decimal, decimal_chars};
use crate::wrap::append_chars;

verus! {

/// Files that go into the video.
#[derive(Clone, Debug)]
pub struct Assets {
    /// Path of the background video.
    pub background: String,
    /// Text shown in a corner for the whole length, if any.
    pub watermark: Option<String>,
}

/// Where the finished video goes.
#[derive(Clone, Debug)]
pub struct Out {
    /// Name of the file to write.
    pub name: String,
    /// Whether a file of that name may be replaced.
    pub overwrite: bool,
}

/// Which texts to fetch.
#[derive(Clone, Debug)]
pub struct Content {
    /// Name of the forum, without `r/`.
    pub subreddit: String,
    /// Order of the posts, such as `top`.
    pub sort: String,
    /// Period that `top` looks at, such as `month`.
    pub time: String,
    /// Whether to read the comments of one post in place of the posts.
    pub comments: bool,
    /// The largest number of texts to use.
    pub limit: u32,
}

/// How the speech is to sound. Pitch and rate are decimal numerals
/// between 0 and 1.
#[derive(Clone, Debug)]
pub struct Voice {
    /// Language tag, such as `en-GB`.
    pub language: String,
    /// `male` or `female`.
    pub gender: String,
    /// Pitch, as a decimal numeral.
    pub pitch: String,
    /// Speed, as a decimal numeral.
    pub rate: String,
}

/// All settings of a run.
#[derive(Clone, Debug)]
pub struct Config {
    pub assets: Assets,
    pub out: Out,
    pub content: Content,
    pub voice: Voice,
}

/// The background video used where none is named.
pub fn background() -> (out: String)
    ensures
        out@ == "background.mp4"@,
{
    "background.mp4".to_owned()
}

/// No watermark where none is named.
pub fn watermark() -> (out: Option<String>)
    ensures
        out is None,
{
    None
}

/// The output file used where none is named.
pub fn name() -> (out: String)
    ensures
        out@ == "video.mp4"@,
{
    "video.mp4".to_owned()
}

/// An existing output file is kept unless the settings say otherwise.
pub fn overwrite() -> (out: bool)
    ensures
        !out,
{
    false
}

/// The forum read where none is named.
pub fn subreddit() -> (out: String)
    ensures
        out@ == "askreddit"@,
{
    "askreddit".to_owned()
}

/// The order of posts used where none is named.
pub fn sort() -> (out: String)
    ensures
        out@ == "top"@,
{
    "top".to_owned()
}

/// The period used where none is named.
pub fn time() -> (out: String)
    ensures
        out@ == "month"@,
{
    "month".to_owned()
}

/// Comments are read unless the settings say otherwise.
pub fn comments() -> (out: bool)
    ensures
        out,
{
    true
}

/// The number of texts used where none is given.
pub fn limit() -> (out: u32)
    ensures
        out == 5,
{
    5
}

/// The language used where none is named.
pub fn language() -> (out: String)
    ensures
        out@ == "en-GB"@,
{
    "en-GB".to_owned()
}

/// The gender used where none is named.
pub fn gender() -> (out: String)
    ensures
        out@ == "male"@,
{
    "male".to_owned()
}

/// The pitch used where none is given.
pub fn pitch() -> (out: String)
    ensures
        out@ == "0.5"@,
{
    "0.5".to_owned()
}

/// The rate used where none is given.
pub fn rate() -> (out: String)
    ensures
        out@ == "0.5"@,
{
    "0.5".to_owned()
}

impl Default for Assets {
    fn default() -> (out: Self)
        ensures
            out.background@ == "background.mp4"@,
            out.watermark is None,
    {
        Assets { background: background(), watermark: watermark() }
    }
}

impl Default for Out {
    fn default() -> (out: Self)
        ensures
            out.name@ == "video.mp4"@,
            !out.overwrite,
    {
        Out { name: name(), overwrite: overwrite() }
    }
}

impl Default for Content {
    fn default() -> (out: Self)
        ensures
            out.subreddit@ == "askreddit"@,
            out.sort@ == "top"@,
            out.time@ == "month"@,
            out.comments,
            out.limit == 5,
    {
        Content {
            subreddit: subreddit(),
            sort: sort(),
            time: time(),
            comments: comments(),
            limit: limit(),
        }
    }
}

impl Default for Voice {
    fn default() -> (out: Self)
        ensures
            out.language@ == "en-GB"@,
            out.gender@ == "male"@,
            out.pitch@ == "0.5"@,
            out.rate@ == "0.5"@,
    {
        Voice { language: language(), gender: gender(), pitch: pitch(), rate: rate() }
    }
}

/// What a `Config` holds, as plain values.
pub struct ConfigModel {
    pub background: Seq<char>,
    pub watermark: Option<Seq<char>>,
    pub name: Seq<char>,
    pub overwrite: bool,
    pub subreddit: Seq<char>,
    pub sort: Seq<char>,
    pub time: Seq<char>,
    pub comments: bool,
    pub limit: nat,
    pub language: Seq<char>,
    pub gender: Seq<char>,
    pub pitch: Seq<char>,
    pub rate: Seq<char>,
}

impl ConfigModel {
    /// The settings of a run for which nothing was set.
    pub open spec fn standard() -> ConfigModel {
        ConfigModel {
            background: "background.mp4"@,
            watermark: None,
            name: "video.mp4"@,
            overwrite: false,
            subreddit: "askreddit"@,
            sort: "top"@,
            time: "month"@,
            comments: true,
            limit: 5,
            language: "en-GB"@,
            gender: "male"@,
            pitch: "0.5"@,
            rate: "0.5"@,
        }
    }
}

impl View for Config {
    type V = ConfigModel;

    open spec fn view(&self) -> ConfigModel {
        ConfigModel {
            background: self.assets.background@,
            watermark: match self.assets.watermark {
                Some(mark) => Some(mark@),
                None => None,
            },
            name: self.out.name@,
            overwrite: self.out.overwrite,
            subreddit: self.content.subreddit@,
            sort: self.content.sort@,
            time: self.content.time@,
            comments: self.content.comments,
            limit: self.content.limit as nat,
            language: self.voice.language@,
            gender: self.voice.gender@,
            pitch: self.voice.pitch@,
            rate: self.voice.rate@,
        }
    }
}

impl Default for Config {
    fn default() -> (out: Self)
        ensures
            out@ == ConfigModel::standard(),
    {
        Config {
            assets: Assets::default(),
            out: Out::default(),
            content: Content::default(),
            voice: Voice::default(),
        }
    }
}

/// A value given for a setting.
#[derive(Clone, Debug, PartialEq, Eq)]
pub enum Setting {
    /// A text.
    Text(String),
    /// Yes or no.
    Flag(bool),
    /// A whole number.
    Number(i64),
    /// A number with a fraction, as its decimal numeral.
    Decimal(String),
    /// Anything else: a date, a list, a table.
    Other,
}

impl Setting {
    /// A copy of the value.
    pub fn copy(&self) -> (out: Setting)
        ensures
            out == *self,
    {
        match self {
            Setting::Text(text) => Setting::Text(text.clone()),
            Setting::Flag(flag) => Setting::Flag(*flag),
            Setting::Number(n) => Setting::Number(*n),
            Setting::Decimal(text) => Setting::Decimal(text.clone()),
            Setting::Other => Setting::Other,
        }
    }
}

/// Why a setting was refused.
#[derive(Clone, Debug, PartialEq, Eq)]
pub enum ConfigError {
    /// There is no group of settings of this name.
    UnknownSection(String),
    /// The group (first) has no setting of this name (second).
    UnknownKey(String, String),
    /// The setting (group, then name) takes no value of this kind.
    InvalidValue(String, String),
}

/// What a `ConfigError` holds, as plain values.
pub enum ConfigErrorModel {
    UnknownSection(Seq<char>),
    UnknownKey(Seq<char>, Seq<char>),
    InvalidValue(Seq<char>, Seq<char>),
}

impl View for ConfigError {
    type V = ConfigErrorModel;

    open spec fn view(&self) -> ConfigErrorModel {
        match self {
            ConfigError::UnknownSection(section) => ConfigErrorModel::UnknownSection(section@),
            ConfigError::UnknownKey(section, key) => ConfigErrorModel::UnknownKey(section@, key@),
            ConfigError::InvalidValue(section, key) => ConfigErrorModel::InvalidValue(
                section@,
                key@,
            ),
        }
    }
}

/// The numeral of a whole number, with a minus sign where it is negative.
pub open spec fn signed_decimal(n: int) -> Seq<char> {
    if n < 0 {
        seq!['-'] + decimal((-n) as nat)
    } else {
        decimal(n as nat)
    }
}

/// The text that a value gives to a setting that holds a text.
pub open spec fn as_text(value: Setting) -> Option<Seq<char>> {
    match value {
        Setting::Text(text) => Some(text@),
        _ => None,
    }
}

/// The yes or no that a value gives to a setting that holds one.
pub open spec fn as_flag(value: Setting) -> Option<bool> {
    match value {
        Setting::Flag(flag) => Some(flag),
        _ => None,
    }
}

/// The count that a value gives to a setting that holds one: a whole
/// number from zero up to the largest 32-bit number.
pub open spec fn as_count(value: Setting) -> Option<nat> {
    match value {
        Setting::Number(n) => if 0 <= n <= u32::MAX {
            Some(n as nat)
        } else {
            None
        },
        _ => None,
    }
}

/// The numeral that a value gives to a setting that holds a number with a
/// fraction: the numeral as it is, or that of a whole number.
pub open spec fn as_numeral(value: Setting) -> Option<Seq<char>> {
    match value {
        Setting::Decimal(text) => Some(text@),
        Setting::Number(n) => Some(signed_decimal(n as int)),
        _ => None,
    }
}

/// Whether a group of settings has this name.
pub open spec fn is_section(section: Seq<char>) -> bool {
    section == "assets"@ || section == "out"@ || section == "content"@ || section == "voice"@
}

/// The settings after one of them was given a value, or why the value was
/// refused. Every setting belongs to one of the groups `assets`, `out`,
/// `content` and `voice`; a group or a name that is not known is refused,
/// and so is a value of another kind than the setting holds.
pub open spec fn with_setting(
    config: ConfigModel,
    section: Seq<char>,
    key: Seq<char>,
    value: Setting,
) -> Result<ConfigModel, ConfigErrorModel> {
    let invalid = Err::<ConfigModel, ConfigErrorModel>(
        ConfigErrorModel::InvalidValue(section, key),
    );
    let unknown = Err::<ConfigModel, ConfigErrorModel>(ConfigErrorModel::UnknownKey(section, key));
    if section == "assets"@ {
        if key == "background"@ {
            match as_text(value) {
                Some(text) => Ok(ConfigModel { background: text, ..config }),
                None => invalid,
            }
        } else if key == "watermark"@ {
            match as_text(value) {
                Some(text) => Ok(ConfigModel { watermark: Some(text), ..config }),
                None => invalid,
            }
        } else {
            unknown
        }
    } else if section == "out"@ {
        if key == "name"@ {
            match as_text(value) {
                Some(text) => Ok(ConfigModel { name: text, ..config }),
                None => invalid,
            }
        } else if key == "overwrite"@ {
            match as_flag(value) {
                Some(flag) => Ok(ConfigModel { overwrite: flag, ..config }),
                None => invalid,
            }
        } else {
            unknown
        }
    } else if section == "content"@ {
        if key == "subreddit"@ {
            match as_text(value) {
                Some(text) => Ok(ConfigModel { subreddit: text, ..config }),
                None => invalid,
            }
        } else if key == "sort"@ {
            match as_text(value) {
                Some(text) => Ok(ConfigModel { sort: text, ..config }),
                None => invalid,
            }
        } else if key == "time"@ {
            match as_text(value) {
                Some(text) => Ok(ConfigModel { time: text, ..config }),
                None => invalid,
            }
        } else if key == "comments"@ {
            match as_flag(value) {
                Some(flag) => Ok(ConfigModel { comments: flag, ..config }),
                None => invalid,
            }
        } else if key == "limit"@ {
            match as_count(value) {
                Some(count) => Ok(ConfigModel { limit: count, ..config }),
                None => invalid,
            }
        } else {
            unknown
        }
    } else if section == "voice"@ {
        if key == "language"@ {
            match as_text(value) {
                Some(text) => Ok(ConfigModel { language: text, ..config }),
                None => invalid,
            }
        } else if key == "gender"@ {
            match as_text(value) {
                Some(text) => Ok(ConfigModel { gender: text, ..config }),
                None => invalid,
            }
        } else if key == "pitch"@ {
            match as_numeral(value) {
                Some(text) => Ok(ConfigModel { pitch: text, ..config }),
                None => invalid,
            }
        } else if key == "rate"@ {
            match as_numeral(value) {
                Some(text) => Ok(ConfigModel { rate: text, ..config }),
                None => invalid,
            }
        } else {
            unknown
        }
    } else {
        Err(ConfigErrorModel::UnknownSection(section))
    }
}

/// Whether two texts are the same.
pub fn same_text(a: &str, b: &str) -> (out: bool)
    ensures
        out == (a@ == b@),
{
    let left = a.to_owned();
    let right = b.to_owned();
    left == right
}

/// The text of a value for a setting that holds a text.
pub fn text_of(value: Setting) -> (out: Option<String>)
    ensures
        out is Some <==> as_text(value) is Some,
        out is Some ==> out->0@ == as_text(value)->0,
{
    match value {
        Setting::Text(text) => Some(text),
        _ => None,
    }
}

/// The yes or no of a value for a setting that holds one.
pub fn flag_of(value: Setting) -> (out: Option<bool>)
    ensures
        out == as_flag(value),
{
    match value {
        Setting::Flag(flag) => Some(flag),
        _ => None,
    }
}

/// The count of a value for a setting that holds one.
pub fn count_of(value: Setting) -> (out: Option<u32>)
    ensures
        out is Some <==> as_count(value) is Some,
        out is Some ==> out->0 as nat == as_count(value)->0,
{
    match value {
        Setting::Number(n) => {
            if 0 <= n && n <= 0xffff_ffff {
                Some(n as u32)
            } else {
                None
            }
        },
        _ => None,
    }
}

/// The numeral of a whole number.
pub fn signed_decimal_string(n: i64) -> (out: String)
    ensures
        out@ == signed_decimal(n as int),
{
    let mut out: Vec<char> = Vec::new();
    if n < 0 {
        out.push('-');
        let size: u128 = (-(n as i128)) as u128;
        let digits = decimal_chars(size);
        append_chars(&mut out, &digits);
    } else {
        let digits = decimal_chars(n as u128);
        append_chars(&mut out, &digits);
    }
    string_of(&out)
}

/// The numeral of a value for a setting that holds a number with a
/// fraction.
pub fn numeral_of(value: Setting) -> (out: Option<String>)
    ensures
        out is Some <==> as_numeral(value) is Some,
        out is Some ==> out->0@ == as_numeral(value)->0,
{
    match value {
        Setting::Decimal(text) => Some(text),
        Setting::Number(n) => Some(signed_decimal_string(n)),
        _ => None,
    }
}

impl Config {
    /// Gives one setting a value. The other settings stay as they are; a
    /// setting that is refused changes nothing.
    pub fn set(&mut self, section: &str, key: &str, value: Setting) -> (out: Result<
        (),
        ConfigError,
    >)
        ensures
            match with_setting(old(self)@, section@, key@, value) {
                Ok(config) => out is Ok && final(self)@ == config,
                Err(error) => out is Err && out->Err_0@ == error && final(self)@ == old(self)@,
            },
    {
        let invalid = ConfigError::InvalidValue(section.to_owned(), key.to_owned());
        let unknown = ConfigError::UnknownKey(section.to_owned(), key.to_owned());
        if same_text(section, "assets") {
            if same_text(key, "background") {
                match text_of(value) {
                    Some(text) => {
                        self.assets.background = text;
                        Ok(())
                    },
                    None => Err(invalid),
                }
            } else if same_text(key, "watermark") {
                match text_of(value) {
                    Some(text) => {
                        self.assets.watermark = Some(text);
                        Ok(())
                    },
                    None => Err(invalid),
                }
            } else {
                Err(unknown)
            }
        } else if same_text(section, "out") {
            if same_text(key, "name") {
                match text_of(value) {
                    Some(text) => {
                        self.out.name = text;
                        Ok(())
                    },
                    None => Err(invalid),
                }
            } else if same_text(key, "overwrite") {
                match flag_of(value) {
                    Some(flag) => {
                        self.out.overwrite = flag;
                        Ok(())
                    },
                    None => Err(invalid),
                }
            } else {
                Err(unknown)
            }
        } else if same_text(section, "content") {
            if same_text(key, "subreddit") {
                match text_of(value) {
                    Some(text) => {
                        self.content.subreddit = text;
                        Ok(())
                    },
                    None => Err(invalid),
                }
            } else if same_text(key, "sort") {
                match text_of(value) {
                    Some(text) => {
                        self.content.sort = text;
                        Ok(())
                    },
                    None => Err(invalid),
                }
            } else if same_text(key, "time") {
                match text_of(value) {
                    Some(text) => {
                        self.content.time = text;
                        Ok(())
                    },
                    None => Err(invalid),
                }
            } else if same_text(key, "comments") {
                match flag_of(value) {
                    Some(flag) => {
                        self.content.comments = flag;
                        Ok(())
                    },
                    None => Err(invalid),
                }
            } else if same_text(key, "limit") {
                match count_of(value) {
                    Some(count) => {
                        self.content.limit = count;
                        Ok(())
                    },
                    None => Err(invalid),
                }
            } else {
                Err(unknown)
            }
        } else if same_text(section, "voice") {
            if same_text(key, "language") {
                match text_of(value) {
                    Some(text) => {
                        self.voice.language = text;
                        Ok(())
                    },
                    None => Err(invalid),
                }
            } else if same_text(key, "gender") {
                match text_of(value) {
                    Some(text) => {
                        self.voice.gender = text;
                        Ok(())
                    },
                    None => Err(invalid),
                }
            } else if same_text(key, "pitch") {
                match numeral_of(value) {
                    Some(text) => {
                        self.voice.pitch = text;
                        Ok(())
                    },
                    None => Err(invalid),
                }
            } else if same_text(key, "rate") {
                match numeral_of(value) {
                    Some(text) => {
                        self.voice.rate = text;
                        Ok(())
                    },
                    None => Err(invalid),
                }
            } else {
                Err(unknown)
            }
        } else {
            Err(ConfigError::UnknownSection(section.to_owned()))
        }
    }
}

/// One line of a settings document: a value for a named setting of a
/// named group.
#[derive(Clone, Debug, PartialEq, Eq)]
pub struct Entry {
    pub section: String,
    pub key: String,
    pub value: Setting,
}

/// The settings that a document gives: every setting that it names has
/// the value given, every other one its standard value. The first line
/// that is refused makes the whole document fail, with that line's error.
pub open spec fn configured(entries: Seq<Entry>) -> Result<ConfigModel, ConfigErrorModel>
    decreases entries.len(),
{
    if entries.len() == 0 {
        Ok(ConfigModel::standard())
    } else {
        match configured(entries.drop_last()) {
            Ok(config) => with_setting(
                config,
                entries.last().section@,
                entries.last().key@,
                entries.last().value,
            ),
            Err(error) => Err(error),
        }
    }
}

/// A document whose first lines fail, fails with the same error however
/// it goes on.
pub proof fn lemma_first_refusal_stands(entries: Seq<Entry>, count: int)
    requires
        0 <= count <= entries.len(),
        configured(entries.take(count)) is Err,
    ensures
        configured(entries) == configured(entries.take(count)),
    decreases entries.len() - count,
{
    if count < entries.len() {
        assert(entries.take(count + 1).drop_last() =~= entries.take(count));
        lemma_first_refusal_stands(entries, count + 1);
    } else {
        assert(entries.take(count) =~= entries);
    }
}

/// The view of the outcome of reading a document.
pub open spec fn outcome_view(outcome: Result<Config, ConfigError>) -> Result<
    ConfigModel,
    ConfigErrorModel,
> {
    match outcome {
        Ok(config) => Ok(config@),
        Err(error) => Err(error@),
    }
}

impl Config {
    /// Reads the settings from the lines of a document, in their order.
    /// A document without lines gives the standard settings.
    pub fn from_entries(entries: &Vec<Entry>) -> (out: Result<Config, ConfigError>)
        ensures
            outcome_view(out) == configured(entries@),
    {
        let mut config = Config::default();
        let mut i: usize = 0;
        assert(entries@.take(0) =~= Seq::<Entry>::empty());
        while i < entries.len()
            invariant
                i <= entries.len(),
                configured(entries@.take(i as int)) == Ok::<ConfigModel, ConfigErrorModel>(config@),
            decreases entries.len() - i,
        {
            proof {
                assert(entries@.take(i + 1).drop_last() =~= entries@.take(i as int));
                assert(entries@.take(i + 1).last() == entries@[i as int]);
            }
            let entry = &entries[i];
            let value = entry.value.copy();
            match config.set(entry.section.as_str(), entry.key.as_str(), value) {
                Ok(()) => {},
                Err(error) => {
                    proof {
                        lemma_first_refusal_stands(entries@, i + 1);
                    }
                    return Err(error);
                },
            }
            i += 1;
        }
        assert(entries@.take(i as int) =~= entries@);
        Ok(config)
    }
}

} // verus!
