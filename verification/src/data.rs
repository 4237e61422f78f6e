use vstd::prelude::*;

use crate::text::str_eq;

verus! {

/// A fixed chat response: saying the trigger asks for the response text.
pub struct SimpleResponse {
    pub trigger: String,
    pub response: String,
}

/// A shoutout message sent on a timer.
pub struct TimedShoutout {
    pub seconds: u16,
    pub message: String,
}

/// A command with the invisible tag character some chat clients append is
/// read as if the tag were not there.
pub open spec fn strip_tag(s: Seq<char>) -> Seq<char> {
    if s.len() > 0 && s.last() == '\u{e0000}' {
        s.drop_last()
    } else {
        s
    }
}

/// The triggers and responses, as their mathematical content.
pub open spec fn response_views(rs: Seq<SimpleResponse>) -> Seq<(Seq<char>, Seq<char>)> {
    rs.map_values(|r: SimpleResponse| (r.trigger@, r.response@))
}

/// The response of the first entry whose trigger is the command.
pub open spec fn find_response(rs: Seq<(Seq<char>, Seq<char>)>, cmd: Seq<char>) -> Option<
    Seq<char>,
>
    decreases rs.len(),
{
    if rs.len() == 0 {
        None
    } else if rs[0].0 == cmd {
        Some(rs[0].1)
    } else {
        find_response(rs.skip(1), cmd)
    }
}

/// Answers a plain command from the configured responses: the tag character
/// is stripped first, the name reserved for the speech queue stays silent,
/// and otherwise the first matching trigger's response is used.
pub fn get_response(command: &str, responses: &Vec<SimpleResponse>) -> (r: Option<String>)
    ensures
        ({
            let cmd = strip_tag(command@);
            if cmd == "tts"@ {
                r is None
            } else {
                match r {
                    Some(m) => find_response(response_views(responses@), cmd) == Some(m@),
                    None => find_response(response_views(responses@), cmd) is None,
                }
            }
        }),
{
    let mut v = crate::text::str_chars(command);
    if v.len() > 0 && v[v.len() - 1] == '\u{e0000}' {
        v.pop();
        assert(v@ =~= strip_tag(command@));
    }
    let cmd = crate::text::chars_to_string(&v);
    if str_eq(cmd.as_str(), "tts") {
        return None;
    }
    let ghost rs = response_views(responses@);
    let n = responses.len();
    let mut i: usize = 0;
    proof {
        assert(rs.skip(0) =~= rs);
    }
    while i < n
        invariant
            0 <= i <= n == responses@.len(),
            rs == response_views(responses@),
            v@ == strip_tag(command@),
            cmd@ == v@,
            v@ != "tts"@,
            find_response(rs, v@) == find_response(rs.skip(i as int), v@),
        decreases n - i,
    {
        proof {
            assert(rs.skip(i as int)[0] == rs[i as int]);
            assert(rs.skip(i as int).skip(1) =~= rs.skip(i + 1));
            assert(rs[i as int] == (responses@[i as int].trigger@, responses@[i as int].response@));
        }
        if str_eq(responses[i].trigger.as_str(), cmd.as_str()) {
            assert(rs[i as int].0 == v@);
            return Some(responses[i].response.clone());
        }
        assert(rs[i as int].0 != v@);
        i = i + 1;
    }
    proof {
        assert(rs.skip(i as int) =~= Seq::<(Seq<char>, Seq<char>)>::empty());
    }
    None
}

} // verus!
