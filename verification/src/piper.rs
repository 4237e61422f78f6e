use vstd::prelude::*;

use crate::text::{char_pos, chars_to_string, find_char, last_char_pos, rfind_char, str_chars, sub_chars};

verus! {

/// The file name a download URL points at: everything after the last slash,
/// with any query string cut off first.
pub open spec fn filename_of(s: Seq<char>) -> Seq<char> {
    let q = s.take(char_pos(s, '?', 0));
    q.skip(last_char_pos(q, '/') + 1)
}

/// Everything after the last slash of the URL, with any query cut off first.
fn filename_part(s: &str) -> (r: String)
    ensures
        r@ == filename_of(s@),
{
    let v = str_chars(s);
    let e = find_char(&v, '?', 0);
    let ghost q = v@.take(e as int);
    let start: usize = match rfind_char(&v, '/', e) {
        Some(i) => i + 1,
        None => 0,
    };
    proof {
        crate::text::lemma_last_char_pos_bounds(q, '/');
        assert(v@.subrange(0, e as int) == q);
        assert(v@.subrange(start as int, e as int) =~= q.skip(last_char_pos(q, '/') + 1));
    }
    let part = sub_chars(&v, start, e);
    chars_to_string(&part)
}

/// The three download URLs of one synthetic voice: a listening sample, the
/// model, and its settings.
pub struct PiperVoiceUrls {
    pub example: String,
    pub onnx: String,
    pub json: String,
}

impl PiperVoiceUrls {
    /// The file name the sample URL points at.
    pub fn get_example_filename(&self) -> (r: String)
        ensures
            r@ == filename_of(self.example@),
    {
        filename_part(self.example.as_str())
    }

    /// The file name the model URL points at.
    pub fn get_onnx_filename(&self) -> (r: String)
        ensures
            r@ == filename_of(self.onnx@),
    {
        filename_part(self.onnx.as_str())
    }

    /// The file name the settings URL points at.
    pub fn get_json_filename(&self) -> (r: String)
        ensures
            r@ == filename_of(self.json@),
    {
        filename_part(self.json.as_str())
    }
}

} // verus!
