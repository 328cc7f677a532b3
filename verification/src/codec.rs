//! Encoding of control commands: argument tokens are classified as numeric
//! or textual, and the whole command is rendered as one compact request
//! line carrying a per-session sequence id.
use vstd::prelude::*;

use crate::text::{dec_str, parse_i32_str, parsed_i32, push_char, push_dec_u32, split_on,
    split_str};

verus! {

/// How one argument token is emitted: a token that reads as a signed
/// 32-bit integer stays bare, any other token is wrapped in double quotes
/// (embedded quotes are not escaped).
pub open spec fn render_token(t: Seq<char>) -> Seq<char> {
    if parsed_i32(t) is Some {
        t
    } else {
        seq!['"'] + t + seq!['"']
    }
}

/// The rendered tokens joined by `", "`.
pub open spec fn render_params(ts: Seq<Seq<char>>) -> Seq<char>
    decreases ts.len(),
{
    if ts.len() == 0 {
        Seq::empty()
    } else if ts.len() == 1 {
        render_token(ts[0])
    } else {
        render_params(ts.drop_last()) + ", "@ + render_token(ts.last())
    }
}

/// Renders a space-separated parameter string as a command argument list:
/// each token is split out, classified, and emitted bare if numeric or
/// double-quoted otherwise, the tokens joined by `", "`.
pub fn parse_params(params: &str) -> (r: String)
    ensures
        r@ == render_params(split_on(params@, " "@)),
{
    proof {
        reveal_strlit(" ");
    }
    let toks = split_str(params, " ");
    let ghost tok_views = toks@.map_values(|p: String| p@);
    let mut r = String::new();
    let mut k: usize = 0;
    proof {
        assert(tok_views.subrange(0, 0) =~= Seq::<Seq<char>>::empty());
    }
    while k < toks.len()
        invariant
            0 <= k <= toks@.len(),
            tok_views == toks@.map_values(|p: String| p@),
            r@ == render_params(tok_views.subrange(0, k as int)),
        decreases toks@.len() - k,
    {
        proof {
            let pref = tok_views.subrange(0, k + 1);
            assert(pref.drop_last() =~= tok_views.subrange(0, k as int));
            assert(pref.last() == tok_views[k as int]);
            assert(toks@[k as int]@ == tok_views[k as int]);
        }
        if k > 0 {
            r.append(", ");
        }
        let numeric = parse_i32_str(toks[k].as_str()).is_some();
        if numeric {
            r.append(toks[k].as_str());
        } else {
            push_char(&mut r, '"');
            r.append(toks[k].as_str());
            push_char(&mut r, '"');
        }
        proof {
            if !numeric {
                assert(render_token(tok_views[k as int]) =~= seq!['"'] + tok_views[k as int]
                    + seq!['"']);
            }
            assert(r@ =~= render_params(tok_views.subrange(0, k + 1)));
        }
        k = k + 1;
    }
    proof {
        assert(tok_views.subrange(0, tok_views.len() as int) =~= tok_views);
    }
    r
}

/// The wire form of one control request: the sequence id, the method name,
/// and the already-rendered argument list, as one CRLF-terminated line.
pub open spec fn spec_message(id: int, method: Seq<char>, params: Seq<char>) -> Seq<char> {
    "{\"id\":"@ + dec_str(id) + ",\"method\":\""@ + method + "\",\"params\":["@ + params
        + "]}\r\n"@
}

/// Builds the wire message for one control command. The method name and
/// the argument list are spliced in verbatim; no validation against the
/// device's capabilities is attempted.
pub fn create_message(id: u32, method: &str, params: &str) -> (r: String)
    ensures
        r@ == spec_message(id as int, method@, params@),
{
    let mut r = String::new();
    r.append("{\"id\":");
    push_dec_u32(&mut r, id);
    r.append(",\"method\":\"");
    r.append(method);
    r.append("\",\"params\":[");
    r.append(params);
    r.append("]}\r\n");
    proof {
        assert(r@ =~= spec_message(id as int, method@, params@));
    }
    r
}

/// One control session's command counter: ids start at zero and increase
/// by exactly one per command, so ids strictly increase across the
/// consecutive commands of a session and are never reused within it.
pub struct Session {
    pub next_id: u32,
}

impl Session {
    /// A fresh session, about to issue id 0.
    pub fn new() -> (s: Session)
        ensures
            s.next_id == 0,
    {
        Session { next_id: 0 }
    }

    /// Issues the next command of the session: assigns the current id,
    /// advances the counter by exactly one, and encodes the wire message.
    pub fn issue(&mut self, method: &str, params: &str) -> (r: (u32, String))
        requires
            old(self).next_id < u32::MAX,
        ensures
            r.0 == old(self).next_id,
            final(self).next_id == old(self).next_id + 1,
            r.1@ == spec_message(r.0 as int, method@, params@),
    {
        let id = self.next_id;
        self.next_id = self.next_id + 1;
        let msg = create_message(id, method, params);
        (id, msg)
    }
}

} // verus!
