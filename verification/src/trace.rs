use vstd::prelude::*;

use crate::text::{dec_seq, digit_char, digit_str, hex_char, hex_str, u64_to_dec};

verus! {

/// JSON escape of one character. Quotes and backslashes take a backslash;
/// the common control characters take their short escapes; the remaining
/// control characters take the four-digit form; everything else stands as
/// it is.
pub open spec fn escape_char(c: char) -> Seq<char> {
    if c == '"' {
        seq!['\\', '"']
    } else if c == '\\' {
        seq!['\\', '\\']
    } else if c as int == 8 {
        seq!['\\', 'b']
    } else if c == '\t' {
        seq!['\\', 't']
    } else if c == '\n' {
        seq!['\\', 'n']
    } else if c as int == 12 {
        seq!['\\', 'f']
    } else if c == '\r' {
        seq!['\\', 'r']
    } else if (c as int) < 32 {
        seq!['\\', 'u', '0', '0', digit_char((c as int) / 16), hex_char((c as int) % 16)]
    } else {
        seq![c]
    }
}

/// JSON escape of a whole string.
pub open spec fn json_escape(s: Seq<char>) -> Seq<char>
    decreases s.len(),
{
    if s.len() == 0 {
        Seq::empty()
    } else {
        json_escape(s.drop_last()) + escape_char(s.last())
    }
}

/// A character that may stand unescaped inside a JSON string.
pub open spec fn ordinary_json_char(c: char) -> bool {
    c != '"' && c != '\\' && (c as int) >= 32
}

/// A character that closes a two-character JSON escape.
pub open spec fn simple_escape_char(c: char) -> bool {
    c == '"' || c == '\\' || c == '/' || c == 'b' || c == 'f' || c == 'n' || c == 'r' || c == 't'
}

/// A hexadecimal digit character.
pub open spec fn is_hex_char(c: char) -> bool {
    (48 <= c as int && c as int <= 57) || ('a' <= c && c <= 'f') || ('A' <= c && c <= 'F')
}

/// A well-formed JSON string body: a sequence of unescaped characters,
/// two-character escapes, and four-digit escapes, so that every quote,
/// backslash, and control character stands inside an escape.
pub open spec fn json_string_body_ok(t: Seq<char>) -> bool
    decreases t.len(),
{
    t.len() == 0 || (ordinary_json_char(t[0]) && json_string_body_ok(t.skip(1))) || (t.len() >= 2
        && t[0] == '\\' && simple_escape_char(t[1]) && json_string_body_ok(t.skip(2))) || (t.len()
        >= 6 && t[0] == '\\' && t[1] == 'u' && is_hex_char(t[2]) && is_hex_char(t[3])
        && is_hex_char(t[4]) && is_hex_char(t[5]) && json_string_body_ok(t.skip(6)))
}

/// Two well-formed JSON string bodies concatenate to a well-formed body.
proof fn lemma_body_ok_concat(a: Seq<char>, b: Seq<char>)
    requires
        json_string_body_ok(a),
        json_string_body_ok(b),
    ensures
        json_string_body_ok(a + b),
    decreases a.len(),
{
    if a.len() == 0 {
        assert(a + b =~= b);
    } else if ordinary_json_char(a[0]) && json_string_body_ok(a.skip(1)) {
        lemma_body_ok_concat(a.skip(1), b);
        assert((a + b).skip(1) =~= a.skip(1) + b);
    } else if a.len() >= 2 && a[0] == '\\' && simple_escape_char(a[1]) && json_string_body_ok(
        a.skip(2),
    ) {
        lemma_body_ok_concat(a.skip(2), b);
        assert((a + b).skip(2) =~= a.skip(2) + b);
    } else {
        lemma_body_ok_concat(a.skip(6), b);
        assert((a + b).skip(6) =~= a.skip(6) + b);
    }
}

/// The escape of any single character is a well-formed body.
proof fn lemma_escape_char_ok(c: char)
    ensures
        json_string_body_ok(escape_char(c)),
{
    let e = escape_char(c);
    assert(json_string_body_ok(Seq::<char>::empty()));
    if c == '"' || c == '\\' || c as int == 8 || c == '\t' || c == '\n' || c as int == 12 || c
        == '\r' {
        assert(e.skip(2) =~= Seq::<char>::empty());
    } else if (c as int) < 32 {
        assert(e.skip(6) =~= Seq::<char>::empty());
        assert(is_hex_char(e[4]) && is_hex_char(e[5]));
    } else {
        assert(e.skip(1) =~= Seq::<char>::empty());
    }
}

/// The escaped text of any string is a well-formed JSON string body: the
/// trace block stays valid JSON whatever the model name holds.
pub proof fn lemma_json_escape_wellformed(s: Seq<char>)
    ensures
        json_string_body_ok(json_escape(s)),
    decreases s.len(),
{
    if s.len() > 0 {
        lemma_json_escape_wellformed(s.drop_last());
        lemma_escape_char_ok(s.last());
        lemma_body_ok_concat(json_escape(s.drop_last()), escape_char(s.last()));
    }
}

/// Escapes a string for embedding in a JSON document.
pub fn escape_json_str(s: &str) -> (r: String)
    ensures
        r@ == json_escape(s@),
{
    let n = s.unicode_len();
    let mut out = String::new();
    let mut i: usize = 0;
    while i < n
        invariant
            0 <= i <= n,
            n == s@.len(),
            out@ == json_escape(s@.take(i as int)),
        decreases n - i,
    {
        let c = s.get_char(i);
        proof {
            assert(s@.take(i + 1).drop_last() =~= s@.take(i as int));
            assert(s@.take(i + 1).last() == s@[i as int]);
        }
        if c == '"' {
            proof {
                reveal_strlit("\\\"");
                assert("\\\""@ =~= seq!['\\', '"']);
            }
            out.append("\\\"");
        } else if c == '\\' {
            proof {
                reveal_strlit("\\\\");
                assert("\\\\"@ =~= seq!['\\', '\\']);
            }
            out.append("\\\\");
        } else if (c as u32) == 8 {
            proof {
                reveal_strlit("\\b");
                assert("\\b"@ =~= seq!['\\', 'b']);
            }
            out.append("\\b");
        } else if c == '\t' {
            proof {
                reveal_strlit("\\t");
                assert("\\t"@ =~= seq!['\\', 't']);
            }
            out.append("\\t");
        } else if c == '\n' {
            proof {
                reveal_strlit("\\n");
                assert("\\n"@ =~= seq!['\\', 'n']);
            }
            out.append("\\n");
        } else if (c as u32) == 12 {
            proof {
                reveal_strlit("\\f");
                assert("\\f"@ =~= seq!['\\', 'f']);
            }
            out.append("\\f");
        } else if c == '\r' {
            proof {
                reveal_strlit("\\r");
                assert("\\r"@ =~= seq!['\\', 'r']);
            }
            out.append("\\r");
        } else if (c as u32) < 32 {
            proof {
                reveal_strlit("\\u00");
                assert("\\u00"@ =~= seq!['\\', 'u', '0', '0']);
            }
            let v: u32 = c as u32;
            out.append("\\u00");
            out.append(digit_str((v / 16) as u64));
            out.append(hex_str((v % 16) as u64));
            proof {
                assert(out@ =~= json_escape(s@.take(i + 1)));
            }
        } else {
            let piece = s.substring_char(i, i + 1);
            proof {
                assert(piece@ =~= seq![s@[i as int]]);
            }
            out.append(piece);
        }
        i = i + 1;
    }
    proof {
        assert(s@.take(n as int) =~= s@);
    }
    out
}

/// A centisecond count shown as seconds with exactly two decimals.
pub open spec fn spec_centis(cs: int) -> Seq<char> {
    dec_seq(cs / 100) + seq!['.', digit_char((cs % 100) / 10), digit_char(cs % 10)]
}

/// Renders a duration held in centiseconds as seconds with two decimals.
pub fn format_centis(cs: u64) -> (s: String)
    ensures
        s@ == spec_centis(cs as int),
{
    let mut s = u64_to_dec(cs / 100);
    proof {
        reveal_strlit(".");
        assert("."@ =~= seq!['.']);
    }
    s.append(".");
    s.append(digit_str((cs % 100) / 10));
    s.append(digit_str(cs % 10));
    proof {
        assert(s@ =~= spec_centis(cs as int));
    }
    s
}

/// Everything the optional trace block carries: the model that answered
/// and the two measured durations in centiseconds.
pub struct TraceData {
    pub model: String,
    pub response_centis: u64,
    pub execution_centis: u64,
}

/// The rendered trace block: one wrapper key holding exactly the four
/// documented fields.
pub open spec fn spec_trace_json(model: Seq<char>, response_centis: int, execution_centis: int) -> Seq<
    char,
> {
    "{\"auto-commit-msg\":{\"language\":\"rust\",\"model\":\""@ + json_escape(model)
        + "\",\"response_time\":"@ + spec_centis(response_centis) + ",\"execution_time\":"@
        + spec_centis(execution_centis) + "}}"@
}

/// Renders the trace block.
pub fn render_trace_json(t: &TraceData) -> (s: String)
    ensures
        s@ == spec_trace_json(t.model@, t.response_centis as int, t.execution_centis as int),
{
    let mut s = String::from_str("{\"auto-commit-msg\":{\"language\":\"rust\",\"model\":\"");
    let escaped = escape_json_str(t.model.as_str());
    s.append(escaped.as_str());
    s.append("\",\"response_time\":");
    let rt = format_centis(t.response_centis);
    s.append(rt.as_str());
    s.append(",\"execution_time\":");
    let et = format_centis(t.execution_centis);
    s.append(et.as_str());
    s.append("}}");
    proof {
        assert(s@ =~= spec_trace_json(
            t.model@,
            t.response_centis as int,
            t.execution_centis as int,
        ));
    }
    s
}

} // verus!
