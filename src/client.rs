//! The synthesis client: the catalog, and the decisions of the two-phase
//! synthesis protocol around a cache of rendered audio keyed by text and voice.
//!
//! The network steps themselves are performed by the caller: each method
//! returns the next [`SynthesisStep`], and the caller hands back what the
//! backend answered.

use vstd::prelude::*;
use vstd::string::StringExecFns;
use crate::catalog::{
    Speaker, SpeakerId, SpeakerStyleView, find_style_by_id, has_style_at, none_before, shows,
};

verus! {

#[verifier::external_type_specification]
#[verifier::external_body]
#[verifier::reject_recursive_types(K)]
#[verifier::reject_recursive_types(V)]
#[verifier::reject_recursive_types(S)]
pub struct ExMokaCache<K, V, S>(moka::sync::Cache<K, V, S>);

/// The audio cache: rendered audio by (text, voice).
pub type AudioCache = moka::sync::Cache<(String, SpeakerId), Vec<u8>>;

/// A cache key as contracts see it: the text and the voice.
pub type CacheKey = (Seq<char>, SpeakerId);

/// For each key, the audio that was last stored under it. The cache may have
/// dropped any of these since; it holds no other.
pub uninterp spec fn cache_contents(c: AudioCache) -> Map<CacheKey, Seq<u8>>;

/// The largest number of entries that the cache was made to hold.
pub uninterp spec fn cache_capacity(c: AudioCache) -> u64;

/// How many entries the cache keeps at most.
pub const CACHE_CAPACITY: u64 = 10000;

/// Relies on `moka::sync::Cache::new`: an empty cache that stores up to
/// `capacity` entries.
#[verifier::external_body]
fn cache_new(capacity: u64) -> (r: AudioCache)
    ensures
        cache_capacity(r) == capacity,
        forall|k: CacheKey| !cache_contents(r).contains_key(k),
{
    moka::sync::Cache::new(capacity)
}

/// Relies on `moka::sync::Cache::get`: a clone of the value stored under the
/// key, or `None` when there is none (also after an eviction).
#[verifier::external_body]
fn cache_get(c: &AudioCache, text: &str, speaker: SpeakerId) -> (r: Option<Vec<u8>>)
    ensures
        r matches Some(b) ==> cache_contents(*c).contains_key((text@, speaker)) && cache_contents(
            *c,
        )[(text@, speaker)] == b@,
{
    c.get(&(text.to_string(), speaker))
}

/// Relies on `moka::sync::Cache::insert`: the value is stored under the key,
/// replacing an earlier one; the bound stays as it was made.
#[verifier::external_body]
fn cache_insert(c: &mut AudioCache, text: String, speaker: SpeakerId, audio: Vec<u8>)
    ensures
        cache_capacity(*final(c)) == cache_capacity(*old(c)),
        cache_contents(*final(c)) == cache_contents(*old(c)).insert((text@, speaker), audio@),
{
    c.insert((text, speaker), audio)
}

/// Why a synthesis failed.
#[derive(Clone, Copy, PartialEq, Eq, Structural, Debug)]
pub enum SynthesisError {
    /// The analysis request failed or was answered with an error status.
    Analysis,
    /// The render request failed or was answered with an error status.
    Render,
}

/// What the caller does next for one synthesis.
pub enum SynthesisStep {
    /// Post `text` and `speaker` to the analysis endpoint and hand its answer
    /// to [`Client::tts_analyzed`].
    Analyze { text: String, speaker: SpeakerId },
    /// Post `query` as JSON to the render endpoint of `speaker` and hand its
    /// answer to [`Client::tts_rendered`].
    Render { text: String, speaker: SpeakerId, query: String },
    /// The synthesis is over.
    Done(Result<Vec<u8>, SynthesisError>),
}

/// The catalog of voices and the audio cache.
pub struct Client {
    speakers: Vec<Speaker>,
    cache: AudioCache,
}

impl Client {
    pub closed spec fn speakers_view(&self) -> Seq<Speaker> {
        self.speakers@
    }

    /// The largest number of entries that the audio cache holds.
    pub closed spec fn capacity(&self) -> u64 {
        cache_capacity(self.cache)
    }

    pub closed spec fn cached(&self) -> Map<CacheKey, Seq<u8>> {
        cache_contents(self.cache)
    }

    /// A client over an assembled catalog, with an empty cache.
    pub fn new(speakers: Vec<Speaker>) -> (r: Client)
        ensures
            r.speakers_view() == speakers@,
            r.capacity() == CACHE_CAPACITY,
            forall|k: CacheKey| !r.cached().contains_key(k),
    {
        Client { speakers, cache: cache_new(CACHE_CAPACITY) }
    }

    /// The voices of the catalog.
    pub fn get_speakers(&self) -> (r: &[Speaker])
        ensures
            r@ == self.speakers_view(),
    {
        self.speakers.as_slice()
    }

    /// The first style in catalog order whose id is `speaker_id`.
    pub fn query_style_by_id(&self, speaker_id: SpeakerId) -> (r: Option<SpeakerStyleView<'_>>)
        ensures
            match r {
                Some(v) => has_style_at(
                    self.speakers_view(),
                    v.speaker_i as int,
                    v.style_i as int,
                    speaker_id,
                ) && none_before(
                    self.speakers_view(),
                    v.speaker_i as int,
                    v.style_i as int,
                    speaker_id,
                ) && shows(v, self.speakers_view(), v.speaker_i as int, v.style_i as int),
                None => forall|a: int, b: int| !has_style_at(self.speakers_view(), a, b, speaker_id),
            },
    {
        find_style_by_id(&self.speakers, speaker_id)
    }

    /// Starts a synthesis of `text` in voice `speaker_id`: cached audio
    /// finishes it at once, else the text goes to analysis.
    pub fn tts_begin(&self, text: &str, speaker_id: SpeakerId) -> (r: SynthesisStep)
        ensures
            match r {
                SynthesisStep::Done(Ok(b)) => self.cached().contains_key((text@, speaker_id))
                    && self.cached()[(text@, speaker_id)] == b@,
                SynthesisStep::Analyze { text: t, speaker } => t@ == text@ && speaker
                    == speaker_id,
                _ => false,
            },
    {
        Self::tts_looked_up(cache_get(&self.cache, text, speaker_id), text, speaker_id)
    }

    /// What follows a cache lookup: a hit is the result, a miss goes to
    /// analysis.
    pub fn tts_looked_up(cached: Option<Vec<u8>>, text: &str, speaker_id: SpeakerId) -> (r:
        SynthesisStep)
        ensures
            match cached {
                Some(b) => r matches SynthesisStep::Done(Ok(o)) && o@ == b@,
                None => r matches SynthesisStep::Analyze { text: t, speaker } && t@ == text@
                    && speaker == speaker_id,
            },
    {
        match cached {
            Some(b) => SynthesisStep::Done(Ok(b)),
            None => SynthesisStep::Analyze { text: String::from_str(text), speaker: speaker_id },
        }
    }

    /// What follows the analysis: its answer goes to rendering, a failure
    /// ends the synthesis.
    pub fn tts_analyzed(text: String, speaker_id: SpeakerId, answer: Result<String, ()>) -> (r:
        SynthesisStep)
        ensures
            match answer {
                Ok(q) => r matches SynthesisStep::Render { text: t, speaker, query } && t@
                    == text@ && speaker == speaker_id && query@ == q@,
                Err(_) => r matches SynthesisStep::Done(Err(e)) && e == SynthesisError::Analysis,
            },
    {
        match answer {
            Ok(query) => SynthesisStep::Render { text, speaker: speaker_id, query },
            Err(_) => SynthesisStep::Done(Err(SynthesisError::Analysis)),
        }
    }

    /// What follows the rendering: rendered audio is stored under
    /// (`text`, `speaker_id`) and is the result; a failure ends the synthesis
    /// and leaves the cache alone.
    pub fn tts_rendered(&mut self, text: String, speaker_id: SpeakerId, answer: Result<
        Vec<u8>,
        (),
    >) -> (r: SynthesisStep)
        ensures
            final(self).speakers_view() == old(self).speakers_view(),
            final(self).capacity() == old(self).capacity(),
            match answer {
                Ok(b) => r matches SynthesisStep::Done(Ok(o)) && o@ == b@ && final(self).cached()
                    == old(self).cached().insert((text@, speaker_id), b@),
                Err(_) => r matches SynthesisStep::Done(Err(e)) && e == SynthesisError::Render
                    && final(self).cached() == old(self).cached(),
            },
    {
        match answer {
            Ok(audio) => {
                let stored = audio.clone();
                assert(stored@ =~= audio@);
                cache_insert(&mut self.cache, text, speaker_id, stored);
                SynthesisStep::Done(Ok(audio))
            },
            Err(_) => SynthesisStep::Done(Err(SynthesisError::Render)),
        }
    }
}

} // verus!
