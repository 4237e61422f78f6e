use vstd::prelude::*;

use crate::error::{Error, ErrorMsg};
use crate::text::str_eq;

verus! {

/// The speech backends the program knows.
pub enum TtsBackend {
    System,
}

/// A voice: its language tag and its name.
pub struct VoiceData {
    pub language: String,
    pub name: String,
}

/// Mathematical content of a voice.
pub struct VoiceDataV {
    pub language: Seq<char>,
    pub name: Seq<char>,
}

impl View for VoiceData {
    type V = VoiceDataV;

    open spec fn view(&self) -> VoiceDataV {
        VoiceDataV { language: self.language@, name: self.name@ }
    }
}

impl Clone for VoiceData {
    fn clone(&self) -> (r: Self)
        ensures
            r == *self,
    {
        VoiceData { language: self.language.clone(), name: self.name.clone() }
    }
}

/// Two voices are the same when language and name agree.
pub open spec fn voice_matches(v: VoiceDataV, w: VoiceDataV) -> bool {
    v.language == w.language && v.name == w.name
}

/// First position of the wanted voice in the list.
pub open spec fn find_voice(vs: Seq<VoiceDataV>, w: VoiceDataV) -> Option<int>
    decreases vs.len(),
{
    if vs.len() == 0 {
        None
    } else if voice_matches(vs[0], w) {
        Some(0int)
    } else {
        match find_voice(vs.skip(1), w) {
            Some(i) => Some(i + 1),
            None => None,
        }
    }
}

/// The voices of a list, as their mathematical content.
pub open spec fn voice_views(vs: Seq<VoiceData>) -> Seq<VoiceDataV> {
    vs.map_values(|v: VoiceData| v@)
}

/// First position of the wanted voice in the list, if it is offered.
pub fn find_voice_index(voices: &Vec<VoiceData>, w: &VoiceData) -> (r: Option<usize>)
    ensures
        match r {
            Some(i) => i < voices@.len() && find_voice(voice_views(voices@), w@) == Some(i as int),
            None => find_voice(voice_views(voices@), w@) == None::<int>,
        },
{
    let ghost vs = voice_views(voices@);
    let n = voices.len();
    let mut i: usize = 0;
    proof {
        assert(vs.skip(0) =~= vs);
    }
    while i < n
        invariant
            0 <= i <= n == voices@.len(),
            vs == voice_views(voices@),
            find_voice(vs, w@) == match find_voice(vs.skip(i as int), w@) {
                Some(j) => Some(i + j),
                None => None::<int>,
            },
        decreases n - i,
    {
        proof {
            assert(vs.skip(i as int)[0] == vs[i as int]);
            assert(vs.skip(i as int).skip(1) =~= vs.skip(i + 1));
        }
        let lang_hit = str_eq(voices[i].language.as_str(), w.language.as_str());
        let name_hit = str_eq(voices[i].name.as_str(), w.name.as_str());
        if lang_hit && name_hit {
            assert(voice_matches(vs[i as int], w@));
            return Some(i);
        }
        assert(!voice_matches(vs[i as int], w@));
        i = i + 1;
    }
    proof {
        assert(vs.skip(i as int) =~= Seq::<VoiceDataV>::empty());
    }
    None
}

/// The speech engine's plain state: the voices it offers, which one is
/// selected, and whether it reported itself speaking. The engine itself lives
/// outside and is driven by the positions decided here.
pub struct TtsData {
    pub voices: Vec<VoiceData>,
    pub selected_voice: usize,
    pub is_speaking: bool,
}

/// The engine state at startup: the configured voice is selected where the
/// engine offers it, the first voice otherwise.
pub fn init_tts_data(voices: Vec<VoiceData>, configured: Option<&VoiceData>) -> (r: TtsData)
    ensures
        r.voices == voices,
        !r.is_speaking,
        r.selected_voice as int == match configured {
            Some(w) => match find_voice(voice_views(voices@), w@) {
                Some(i) => i,
                None => 0,
            },
            None => 0,
        },
{
    let mut index: usize = 0;
    if let Some(w) = configured {
        if let Some(i) = find_voice_index(&voices, w) {
            index = i;
        }
    }
    TtsData { voices, selected_voice: index, is_speaking: false }
}

/// The selected voice, if the selection points at one.
pub fn get_active(data: &TtsData) -> (r: Option<VoiceData>)
    ensures
        match r {
            Some(v) => data.selected_voice < data.voices@.len() && v == data.voices@[data.selected_voice as int],
            None => data.selected_voice >= data.voices@.len(),
        },
{
    if data.selected_voice < data.voices.len() {
        Some(data.voices[data.selected_voice].clone())
    } else {
        None
    }
}

/// All offered voices.
pub fn get_voices(data: &TtsData) -> (r: Vec<VoiceData>)
    ensures
        r@ == data.voices@,
{
    let n = data.voices.len();
    let mut out: Vec<VoiceData> = Vec::new();
    let mut i: usize = 0;
    while i < n
        invariant
            0 <= i <= n == data.voices@.len(),
            out@ == data.voices@.subrange(0, i as int),
        decreases n - i,
    {
        out.push(data.voices[i].clone());
        assert(out@ =~= data.voices@.subrange(0, i + 1));
        i = i + 1;
    }
    assert(data.voices@.subrange(0, i as int) =~= data.voices@);
    out
}

/// Selects the named voice; an unknown voice is refused and changes nothing.
/// The position handed back is what the engine outside must be set to.
pub fn set_active_voice(data: &mut TtsData, voice: &VoiceData) -> (r: Result<usize, Error>)
    ensures
        final(data).voices == old(data).voices,
        final(data).is_speaking == old(data).is_speaking,
        match r {
            Ok(i) => find_voice(voice_views(old(data).voices@), voice@) == Some(i as int)
                && final(data).selected_voice == i,
            Err(e) => find_voice(voice_views(old(data).voices@), voice@) == None::<int>
                && final(data).selected_voice == old(data).selected_voice && e.msg
                == ErrorMsg::Unknown,
        },
{
    match find_voice_index(&data.voices, voice) {
        Some(i) => {
            data.selected_voice = i;
            Ok(i)
        },
        None => Err(Error::new(ErrorMsg::Unknown)),
    }
}

/// What one utterance asks the engine to do: switch to a voice first, speak
/// the text, and switch back afterwards.
pub struct SpeechPlan {
    pub set_voice: Option<usize>,
    pub text: String,
    pub restore_voice: Option<usize>,
}

/// Plans one utterance: an empty text is refused; a one-off voice is used
/// where the engine offers it, and the selection is restored afterwards.
pub fn speak(data: &TtsData, s: String, voice_overwrite: Option<&VoiceData>) -> (r: Result<
    SpeechPlan,
    Error,
>)
    ensures
        match r {
            Ok(plan) => {
                &&& s@.len() > 0
                &&& plan.text == s
                &&& plan.set_voice == match voice_overwrite {
                    Some(w) => match find_voice(voice_views(data.voices@), w@) {
                        Some(i) => Some(i as usize),
                        None => None::<usize>,
                    },
                    None => None::<usize>,
                }
                &&& plan.restore_voice == if voice_overwrite is Some && data.selected_voice
                    < data.voices@.len() {
                    Some(data.selected_voice)
                } else {
                    None::<usize>
                }
            },
            Err(e) => s@.len() == 0 && e.msg == ErrorMsg::Unknown,
        },
{
    if s.as_str().unicode_len() == 0 {
        return Err(Error::from_err("cannot say an empty message".to_owned(), ErrorMsg::Unknown));
    }
    let set_voice: Option<usize> = match voice_overwrite {
        Some(w) => find_voice_index(&data.voices, w),
        None => None,
    };
    let restore_voice: Option<usize> = if voice_overwrite.is_some() && data.selected_voice
        < data.voices.len() {
        Some(data.selected_voice)
    } else {
        None
    };
    Ok(SpeechPlan { set_voice, text: s, restore_voice })
}

} // verus!
