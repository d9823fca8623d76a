//! Spoken clips: the text sent to the speech service, the length of what
//! comes back, and when to ask again.

use vstd::prelude::*;
use crate::audio::{probe_audio_duration, probed_length};
use crate::chars::{push_str, string_of, texts_of};
use crate::config;
use crate::emoji::{remove_emojis, without_emojis};
use crate::span::Span;

verus! {

/// One spoken text.
#[derive(Clone, Debug)]
pub struct Voice {
    /// The text that is spoken.
    pub text: String,
    /// The audio, as MP3 data.
    pub bytes: Vec<u8>,
    /// How long the audio plays.
    pub duration: Span,
}

/// What a `Voice` holds, as plain values.
pub struct VoiceModel {
    pub text: Seq<char>,
    pub bytes: Seq<u8>,
    pub nanos: nat,
}

impl View for Voice {
    type V = VoiceModel;

    open spec fn view(&self) -> VoiceModel {
        VoiceModel { text: self.text@, bytes: self.bytes@, nanos: self.duration@ }
    }
}

/// Why no clip could be made.
#[derive(Clone, Debug, PartialEq, Eq)]
pub enum VoiceError {
    /// The speech service could not be reached or did not answer.
    Transport(String),
    /// What the service sent is not MP3 data that can be measured.
    Decode(String),
}

/// What a `VoiceError` holds, as plain values.
pub enum VoiceErrorModel {
    Transport(Seq<char>),
    Decode(Seq<char>),
}

impl View for VoiceError {
    type V = VoiceErrorModel;

    open spec fn view(&self) -> VoiceErrorModel {
        match self {
            VoiceError::Transport(message) => VoiceErrorModel::Transport(message@),
            VoiceError::Decode(message) => VoiceErrorModel::Decode(message@),
        }
    }
}

impl VoiceError {
    /// The message of the error.
    pub fn message(&self) -> (out: String)
        ensures
            out@ == match self@ {
                VoiceErrorModel::Transport(message) => message,
                VoiceErrorModel::Decode(message) => message,
            },
    {
        match self {
            VoiceError::Transport(message) => message.clone(),
            VoiceError::Decode(message) => message.clone(),
        }
    }
}

/// The address that speaks `text` with the given settings.
pub open spec fn voice_url_text(settings: &config::Voice, text: Seq<char>) -> Seq<char> {
    "https://texttospeech.responsivevoice.org/v1/text:synthesize?text="@ + text + "&lang="@
        + settings.language@ + "&engine=g1&name=&pitch="@ + settings.pitch@ + "&rate="@
        + settings.rate@ + "&volume=1&key=kvfbSITh&gender="@ + settings.gender@
}

/// Builds the address that speaks `text` with the given settings.
pub fn voice_url(settings: &config::Voice, text: &str) -> (out: String)
    ensures
        out@ == voice_url_text(settings, text@),
{
    let mut out: Vec<char> = Vec::new();
    push_str(&mut out, "https://texttospeech.responsivevoice.org/v1/text:synthesize?text=");
    push_str(&mut out, text);
    push_str(&mut out, "&lang=");
    push_str(&mut out, settings.language.as_str());
    push_str(&mut out, "&engine=g1&name=&pitch=");
    push_str(&mut out, settings.pitch.as_str());
    push_str(&mut out, "&rate=");
    push_str(&mut out, settings.rate.as_str());
    push_str(&mut out, "&volume=1&key=kvfbSITh&gender=");
    push_str(&mut out, settings.gender.as_str());
    assert(out@ =~= voice_url_text(settings, text@));
    string_of(&out)
}

/// How often the speech service is asked for one text before giving up.
pub const MAX_ATTEMPTS: usize = 10;

/// A text on its way to being spoken.
#[derive(Clone, Debug)]
pub struct VoiceRequest {
    /// The text as it was given.
    pub text: String,
    /// The address to fetch the audio from.
    pub url: String,
    /// How many attempts have failed so far.
    pub attempts: usize,
}

/// What a `VoiceRequest` holds, as plain values.
pub struct VoiceRequestModel {
    pub text: Seq<char>,
    pub url: Seq<char>,
    pub attempts: nat,
}

impl View for VoiceRequest {
    type V = VoiceRequestModel;

    open spec fn view(&self) -> VoiceRequestModel {
        VoiceRequestModel { text: self.text@, url: self.url@, attempts: self.attempts as nat }
    }
}

/// What to do after an attempt.
#[derive(Clone, Debug)]
pub enum VoiceStep {
    /// Fetch the request's address once more.
    Retry(VoiceRequest),
    /// The clip is made.
    Done(Voice),
    /// The last attempt allowed has failed, with this error.
    Failed(VoiceError),
}

/// What a `VoiceStep` holds, as plain values.
pub enum VoiceStepModel {
    Retry(VoiceRequestModel),
    Done(VoiceModel),
    Failed(VoiceErrorModel),
}

impl View for VoiceStep {
    type V = VoiceStepModel;

    open spec fn view(&self) -> VoiceStepModel {
        match self {
            VoiceStep::Retry(request) => VoiceStepModel::Retry(request@),
            VoiceStep::Done(voice) => VoiceStepModel::Done(voice@),
            VoiceStep::Failed(error) => VoiceStepModel::Failed(error@),
        }
    }
}

/// The outcome of one attempt, as plain values: the audio and its length
/// in nanoseconds, or the error.
pub type AttemptModel = Result<(Seq<u8>, nat), VoiceErrorModel>;

/// The view of the outcome of one attempt.
pub open spec fn attempt_view(attempt: Result<(Vec<u8>, Span), VoiceError>) -> AttemptModel {
    match attempt {
        Ok(clip) => Ok((clip.0@, clip.1@)),
        Err(error) => Err(error@),
    }
}

/// The step that follows an attempt. Audio with its length ends the work
/// with the clip. A failure is followed by another attempt, unless it was
/// the last one allowed: then its error ends the work.
pub open spec fn next_step(request: VoiceRequestModel, attempt: AttemptModel) -> VoiceStepModel {
    match attempt {
        Ok(clip) => VoiceStepModel::Done(
            VoiceModel { text: request.text, bytes: clip.0, nanos: clip.1 },
        ),
        Err(error) => if request.attempts + 1 >= MAX_ATTEMPTS {
            VoiceStepModel::Failed(error)
        } else {
            VoiceStepModel::Retry(
                VoiceRequestModel {
                    text: request.text,
                    url: request.url,
                    attempts: request.attempts + 1,
                },
            )
        },
    }
}

/// Where a request stands after a row of attempts: each attempt is made
/// only while the step before it asks for one.
pub open spec fn step_after(request: VoiceRequestModel, attempts: Seq<AttemptModel>) -> VoiceStepModel
    decreases attempts.len(),
{
    if attempts.len() == 0 {
        VoiceStepModel::Retry(request)
    } else {
        match step_after(request, attempts.drop_last()) {
            VoiceStepModel::Retry(current) => next_step(current, attempts.last()),
            ended => ended,
        }
    }
}

/// What the answer of the speech service amounts to: an answer that did
/// not arrive is a transport error; audio that cannot be measured is a
/// decode error; otherwise the audio with its length.
pub open spec fn response_attempt(response: Result<Seq<u8>, Seq<char>>) -> AttemptModel {
    match response {
        Ok(bytes) => match probed_length(bytes) {
            Ok(nanos) => Ok((bytes, nanos)),
            Err(error) => Err(error),
        },
        Err(message) => Err(VoiceErrorModel::Transport(message)),
    }
}

/// The view of an answer of the speech service.
pub open spec fn response_view(response: Result<Vec<u8>, String>) -> Result<Seq<u8>, Seq<char>> {
    match response {
        Ok(bytes) => Ok(bytes@),
        Err(message) => Err(message@),
    }
}

/// While fewer than ten attempts have been made and all have failed, the
/// next step is another attempt, and the count of failures is the number
/// of attempts made.
pub proof fn lemma_failures_ask_again(request: VoiceRequestModel, attempts: Seq<AttemptModel>)
    requires
        request.attempts == 0,
        attempts.len() < MAX_ATTEMPTS,
        forall|i: int| 0 <= i < attempts.len() ==> (#[trigger] attempts[i]) is Err,
    ensures
        step_after(request, attempts) == VoiceStepModel::Retry(
            VoiceRequestModel { text: request.text, url: request.url, attempts: attempts.len() },
        ),
    decreases attempts.len(),
{
    if attempts.len() > 0 {
        lemma_failures_ask_again(request, attempts.drop_last());
    }
}

/// Where the service fails `k` times, with `k` below ten, and then
/// answers, the clip is made from that answer with the text as it was
/// given, and it takes `k + 1` attempts: after each of the `k` failures
/// the step is another attempt.
pub proof fn lemma_success_after_failures(
    request: VoiceRequestModel,
    attempts: Seq<AttemptModel>,
    k: nat,
)
    requires
        request.attempts == 0,
        k < MAX_ATTEMPTS,
        attempts.len() == k + 1,
        forall|i: int| 0 <= i < k ==> (#[trigger] attempts[i]) is Err,
        attempts[k as int] is Ok,
    ensures
        step_after(request, attempts) == VoiceStepModel::Done(
            VoiceModel {
                text: request.text,
                bytes: attempts[k as int]->Ok_0.0,
                nanos: attempts[k as int]->Ok_0.1,
            },
        ),
        forall|j: int|
            0 <= j <= k ==> #[trigger] step_after(request, attempts.take(j))
                == VoiceStepModel::Retry(
                VoiceRequestModel { text: request.text, url: request.url, attempts: j as nat },
            ),
{
    assert forall|j: int| 0 <= j <= k implies #[trigger] step_after(request, attempts.take(j))
        == VoiceStepModel::Retry(
        VoiceRequestModel { text: request.text, url: request.url, attempts: j as nat },
    ) by {
        lemma_failures_ask_again(request, attempts.take(j));
    }
    assert(attempts.drop_last() =~= attempts.take(k as int));
    lemma_failures_ask_again(request, attempts.take(k as int));
}

/// Where the service fails ten times in a row, the work ends with the
/// error of the tenth attempt, and with no fewer attempts than ten.
pub proof fn lemma_failure_after_last_attempt(
    request: VoiceRequestModel,
    attempts: Seq<AttemptModel>,
)
    requires
        request.attempts == 0,
        attempts.len() == MAX_ATTEMPTS,
        forall|i: int| 0 <= i < attempts.len() ==> (#[trigger] attempts[i]) is Err,
    ensures
        step_after(request, attempts) == VoiceStepModel::Failed(attempts[9]->Err_0),
        forall|j: int|
            0 <= j < MAX_ATTEMPTS ==> #[trigger] step_after(request, attempts.take(j))
                == VoiceStepModel::Retry(
                VoiceRequestModel { text: request.text, url: request.url, attempts: j as nat },
            ),
{
    assert forall|j: int| 0 <= j < MAX_ATTEMPTS implies #[trigger] step_after(
        request,
        attempts.take(j),
    ) == VoiceStepModel::Retry(
        VoiceRequestModel { text: request.text, url: request.url, attempts: j as nat },
    ) by {
        lemma_failures_ask_again(request, attempts.take(j));
    }
    assert(attempts.drop_last() =~= attempts.take(9));
    lemma_failures_ask_again(request, attempts.take(9));
}

/// The request that starts the work on a text: the address is made from
/// the text without its emoji, and no attempt has failed.
pub open spec fn first_request(settings: &config::Voice, text: Seq<char>) -> VoiceRequestModel {
    VoiceRequestModel {
        text,
        url: voice_url_text(settings, without_emojis(text)),
        attempts: 0,
    }
}

/// Prepares a text for the speech service: the address is made from the
/// text without its emoji, and no attempt has been made.
pub fn start_voice(settings: &config::Voice, text: String) -> (out: VoiceRequest)
    ensures
        out@ == first_request(settings, text@),
{
    let spoken = remove_emojis(text.as_str());
    let url = voice_url(settings, spoken.as_str());
    VoiceRequest { text, url, attempts: 0 }
}

/// Decides what follows an attempt whose outcome is known.
pub fn after_attempt(request: VoiceRequest, attempt: Result<(Vec<u8>, Span), VoiceError>) -> (out:
    VoiceStep)
    ensures
        out@ == next_step(request@, attempt_view(attempt)),
{
    match attempt {
        Ok(clip) => VoiceStep::Done(Voice { text: request.text, bytes: clip.0, duration: clip.1 }),
        Err(error) => {
            if request.attempts >= MAX_ATTEMPTS - 1 {
                VoiceStep::Failed(error)
            } else {
                VoiceStep::Retry(
                    VoiceRequest {
                        text: request.text,
                        url: request.url,
                        attempts: request.attempts + 1,
                    },
                )
            }
        },
    }
}

/// Turns the answer of the speech service into the outcome of the attempt,
/// measuring the audio where there is any.
pub fn attempt_from_response(response: Result<Vec<u8>, String>) -> (out: Result<
    (Vec<u8>, Span),
    VoiceError,
>)
    ensures
        attempt_view(out) == response_attempt(response_view(response)),
{
    match response {
        Ok(bytes) => {
            match probe_audio_duration(bytes.as_slice()) {
                Ok(length) => Ok((bytes, length)),
                Err(error) => Err(error),
            }
        },
        Err(message) => Err(VoiceError::Transport(message)),
    }
}

/// Decides what follows the answer of the speech service to a request.
pub fn voice_attempt(request: VoiceRequest, response: Result<Vec<u8>, String>) -> (out: VoiceStep)
    ensures
        out@ == next_step(request@, response_attempt(response_view(response))),
{
    after_attempt(request, attempt_from_response(response))
}

/// The texts of a run on their way to being spoken, one after the other.
#[derive(Debug)]
pub struct VoiceBatch {
    settings: config::Voice,
    texts: Vec<String>,
    voices: Vec<Voice>,
    current: VoiceRequest,
}

/// What a `VoiceBatch` holds, as plain values.
pub struct BatchModel {
    /// How the speech is to sound.
    pub settings: config::Voice,
    /// All texts, in the order in which they are spoken.
    pub texts: Seq<Seq<char>>,
    /// The clips made so far.
    pub voices: Seq<VoiceModel>,
    /// The request for the first text that has no clip yet.
    pub current: VoiceRequestModel,
}

/// What to do next for the texts of a run.
#[derive(Debug)]
pub enum BatchStep {
    /// Fetch the address of the batch's current request, and come back
    /// with the answer.
    Fetch(VoiceBatch),
    /// Every text has its clip.
    Done(Vec<Voice>),
    /// One text could not be spoken; no clip is handed out.
    Failed(VoiceError),
}

/// The texts held by a list of clips.
pub open spec fn voice_texts(voices: Seq<Voice>) -> Seq<Seq<char>> {
    Seq::new(voices.len(), |i: int| voices[i].text@)
}

/// The views of clips.
pub open spec fn voice_models(voices: Seq<Voice>) -> Seq<VoiceModel> {
    Seq::new(voices.len(), |i: int| voices[i]@)
}

impl BatchModel {
    /// Whether the batch is in order: the clips made are those of the
    /// first texts, a text is left, and the current request is the one for
    /// the first text left, with fewer failures than attempts allowed.
    pub open spec fn wf(self) -> bool {
        &&& self.voices.len() < self.texts.len()
        &&& forall|i: int| 0 <= i < self.voices.len() ==> (#[trigger] self.voices[i]).text == self.texts[i]
        &&& self.current.text == self.texts[self.voices.len() as int]
        &&& self.current.url == voice_url_text(&self.settings, without_emojis(self.current.text))
        &&& self.current.attempts < MAX_ATTEMPTS
    }
}

impl View for VoiceBatch {
    type V = BatchModel;

    closed spec fn view(&self) -> BatchModel {
        BatchModel {
            settings: self.settings,
            texts: texts_of(self.texts@),
            voices: voice_models(self.voices@),
            current: self.current@,
        }
    }
}

impl VoiceBatch {
    #[verifier::type_invariant]
    closed spec fn in_order(self) -> bool {
        self@.wf()
    }

    /// The address to fetch for the current text.
    pub fn url(&self) -> (out: &str)
        ensures
            out@ == self@.current.url,
            self@.wf(),
    {
        proof {
            use_type_invariant(self);
        }
        self.current.url.as_str()
    }

    /// How many attempts for the current text have failed.
    pub fn attempts(&self) -> (out: usize)
        ensures
            out == self@.current.attempts,
            out < MAX_ATTEMPTS,
    {
        proof {
            use_type_invariant(self);
        }
        self.current.attempts
    }

    /// How many texts have their clip.
    pub fn clips_made(&self) -> (out: usize)
        ensures
            out == self@.voices.len(),
            out < self@.texts.len(),
    {
        proof {
            use_type_invariant(self);
        }
        self.voices.len()
    }
}

/// What follows the outcome of an attempt for the texts of a run. A clip
/// is put behind those made so far, and the next text is asked for, or
/// all clips are handed out where it was the last text. A failure is
/// followed by another attempt for the same text, or after the last
/// attempt allowed by the end of the run, with the error.
pub open spec fn batch_follows(batch: BatchModel, attempt: AttemptModel, out: BatchStep) -> bool {
    match next_step(batch.current, attempt) {
        VoiceStepModel::Retry(request) => out matches BatchStep::Fetch(next) && next@
            == (BatchModel { current: request, ..batch }),
        VoiceStepModel::Failed(error) => out matches BatchStep::Failed(e) && e@ == error,
        VoiceStepModel::Done(voice) => if batch.voices.len() + 1 == batch.texts.len() {
            out matches BatchStep::Done(voices) && voice_models(voices@) == batch.voices.push(voice)
        } else {
            out matches BatchStep::Fetch(next) && next@ == (BatchModel {
                voices: batch.voices.push(voice),
                current: first_request(&batch.settings, batch.texts[batch.voices.len() as int + 1]),
                ..batch
            })
        },
    }
}

/// A copy of the settings.
pub fn copy_settings(settings: &config::Voice) -> (out: config::Voice)
    ensures
        out == *settings,
{
    config::Voice {
        language: settings.language.clone(),
        gender: settings.gender.clone(),
        pitch: settings.pitch.clone(),
        rate: settings.rate.clone(),
    }
}

/// Starts the work on the texts of a run: with no text there is nothing
/// to do; otherwise the first text is asked for.
pub fn create_voices(settings: &config::Voice, texts: Vec<String>) -> (out: BatchStep)
    ensures
        texts@.len() == 0 ==> (out matches BatchStep::Done(voices) && voices@.len() == 0),
        texts@.len() > 0 ==> (out matches BatchStep::Fetch(batch) && batch@ == (BatchModel {
            settings: *settings,
            texts: texts_of(texts@),
            voices: Seq::empty(),
            current: first_request(settings, texts@[0]@),
        })),
{
    if texts.len() == 0 {
        BatchStep::Done(Vec::new())
    } else {
        let current = start_voice(settings, texts[0].clone());
        let voices: Vec<Voice> = Vec::new();
        assert(voice_models(voices@) =~= Seq::<VoiceModel>::empty());
        BatchStep::Fetch(VoiceBatch { settings: copy_settings(settings), texts, voices, current })
    }
}

/// Decides what follows an attempt for the current text of a batch, its
/// outcome being known. Clips that are handed out are one for each text,
/// in the order of the texts.
pub fn batch_after_attempt(batch: VoiceBatch, attempt: Result<(Vec<u8>, Span), VoiceError>) -> (out:
    BatchStep)
    ensures
        batch@.wf(),
        batch_follows(batch@, attempt_view(attempt), out),
        out matches BatchStep::Done(voices) ==> voice_texts(voices@) == batch@.texts,
{
    proof {
        use_type_invariant(&batch);
    }
    let ghost model = batch@;
    let VoiceBatch { settings, texts, voices, current } = batch;
    let mut voices = voices;
    match after_attempt(current, attempt) {
        VoiceStep::Retry(request) => BatchStep::Fetch(
            VoiceBatch { settings, texts, voices, current: request },
        ),
        VoiceStep::Failed(error) => BatchStep::Failed(error),
        VoiceStep::Done(voice) => {
            let ghost before = voice_models(voices@);
            voices.push(voice);
            proof {
                assert(voice_models(voices@) =~= before.push(voice@));
                assert(voice@.text == model.texts[before.len() as int]);
            }
            if voices.len() == texts.len() {
                assert forall|i: int| 0 <= i < voices@.len() implies voices@[i].text@
                    == model.texts[i] by {
                    if i < before.len() {
                        assert(before[i].text == model.texts[i]);
                    }
                }
                assert(voice_texts(voices@) =~= model.texts);
                BatchStep::Done(voices)
            } else {
                let next = start_voice(&settings, texts[voices.len()].clone());
                BatchStep::Fetch(VoiceBatch { settings, texts, voices, current: next })
            }
        },
    }
}

/// Decides what follows the answer of the speech service for the current
/// text of a batch.
pub fn batch_attempt(batch: VoiceBatch, response: Result<Vec<u8>, String>) -> (out: BatchStep)
    ensures
        batch@.wf(),
        batch_follows(batch@, response_attempt(response_view(response)), out),
        out matches BatchStep::Done(voices) ==> voice_texts(voices@) == batch@.texts,
{
    batch_after_attempt(batch, attempt_from_response(response))
}

} // verus!
