//! The transcript and configuration codec.
//!
//! Saved sessions and the configuration live on disk as JSON.  The codec
//! here writes one canonical shape — fixed key order, no stray blanks —
//! and reads exactly that shape back; a file in any other shape does not
//! parse, and the caller skips it or falls back to defaults, as the
//! error policy prescribes.  What the writer produces the reader
//! provably returns unchanged.
//!
//! Strings are escaped the usual way: quote, backslash, newline, return
//! and tab by their two-character forms, any other control character as
//! a four-digit escape.

use vstd::prelude::*;

use crate::config::{config_wf, ConfigView, ModelConfig};
use crate::history::{messages_view, ChatMessage, ChatSession, MessageView, Role, SessionView};
use crate::numerals::{
    char_digit, dec_digits, digit_char, milli_chars, spec_parse_milli, spec_parse_u64,
};
use crate::text::{chars_to_string, str_to_chars};

verus! {

/// The hexadecimal digit character for `d < 16`, lower case.
pub open spec fn hex_digit(d: nat) -> char {
    if d < 10 {
        digit_char(d)
    } else if d == 10 {
        'a'
    } else if d == 11 {
        'b'
    } else if d == 12 {
        'c'
    } else if d == 13 {
        'd'
    } else if d == 14 {
        'e'
    } else {
        'f'
    }
}

/// The value of a hexadecimal digit character, lower case only.
pub open spec fn hex_val(c: char) -> Option<nat> {
    if c == 'a' {
        Some(10 as nat)
    } else if c == 'b' {
        Some(11 as nat)
    } else if c == 'c' {
        Some(12 as nat)
    } else if c == 'd' {
        Some(13 as nat)
    } else if c == 'e' {
        Some(14 as nat)
    } else if c == 'f' {
        Some(15 as nat)
    } else {
        char_digit(c)
    }
}

/// The escape of one character inside a JSON string.
pub open spec fn esc_char(c: char) -> Seq<char> {
    if c == '"' {
        seq!['\\', '"']
    } else if c == '\\' {
        seq!['\\', '\\']
    } else if c == '\n' {
        seq!['\\', 'n']
    } else if c == '\r' {
        seq!['\\', 'r']
    } else if c == '\t' {
        seq!['\\', 't']
    } else if (c as u32) < 32 {
        seq!['\\', 'u', '0', '0', hex_digit(((c as u32) / 16) as nat), hex_digit(
            ((c as u32) % 16) as nat,
        )]
    } else {
        seq![c]
    }
}

/// The whole text escaped.
pub open spec fn escape(s: Seq<char>) -> Seq<char>
    decreases s.len(),
{
    if s.len() == 0 {
        Seq::<char>::empty()
    } else {
        esc_char(s[0]) + escape(s.drop_first())
    }
}

/// The text escaped and quoted.
pub open spec fn quoted(s: Seq<char>) -> Seq<char> {
    seq!['"'] + escape(s) + seq!['"']
}

/// The JSON name of a role.
pub open spec fn role_name(r: Role) -> Seq<char> {
    match r {
        Role::User => "user"@,
        Role::Assistant => "assistant"@,
    }
}

/// One message as a two-element array: role, then text.
pub open spec fn enc_msg(m: MessageView) -> Seq<char> {
    seq!['['] + quoted(role_name(m.role)) + seq![','] + quoted(m.text) + seq![']']
}

/// The second and later messages, each behind a comma.
pub open spec fn enc_msgs_rest(ms: Seq<MessageView>) -> Seq<char>
    decreases ms.len(),
{
    if ms.len() == 0 {
        Seq::<char>::empty()
    } else {
        seq![','] + enc_msg(ms[0]) + enc_msgs_rest(ms.drop_first())
    }
}

/// The message list, comma separated.
pub open spec fn enc_msgs(ms: Seq<MessageView>) -> Seq<char> {
    if ms.len() == 0 {
        Seq::<char>::empty()
    } else {
        enc_msg(ms[0]) + enc_msgs_rest(ms.drop_first())
    }
}

/// A whole saved session in its canonical shape.
pub open spec fn enc_session(s: SessionView) -> Seq<char> {
    "{\"timestamp\":"@ + quoted(s.timestamp) + ",\"model\":"@ + quoted(s.model)
        + ",\"messages\":["@ + enc_msgs(s.messages) + "]}"@
}

/// The configuration in its canonical shape.
pub open spec fn enc_config(c: ConfigView) -> Seq<char> {
    "{\"temperature\":"@ + milli_chars(c.temperature as nat) + ",\"top_p\":"@ + milli_chars(
        c.top_p as nat,
    ) + ",\"top_k\":"@ + dec_digits(c.top_k as nat) + ",\"repeat_penalty\":"@ + milli_chars(
        c.repeat_penalty as nat,
    ) + ",\"num_ctx\":"@ + dec_digits(c.num_ctx as nat) + ",\"system_prompt\":"@ + quoted(
        c.system_prompt,
    ) + "}"@
}

/// The unescaped character behind a two-character escape.
pub open spec fn unesc_char(c: char) -> char {
    if c == 'n' {
        '\n'
    } else if c == 'r' {
        '\r'
    } else if c == 't' {
        '\t'
    } else {
        c
    }
}

/// Reads a string body up to its closing quote: the text denoted, and
/// what follows the quote.  Raw control characters and unknown escapes
/// do not parse.
pub open spec fn p_str_body(t: Seq<char>) -> Option<(Seq<char>, Seq<char>)>
    decreases t.len(),
{
    if t.len() == 0 {
        None
    } else if t[0] == '"' {
        Some((Seq::<char>::empty(), t.drop_first()))
    } else if t[0] == '\\' {
        if t.len() < 2 {
            None
        } else {
            let c = t[1];
            if c == '"' || c == '\\' || c == 'n' || c == 'r' || c == 't' {
                match p_str_body(t.skip(2)) {
                    Some((s, rest)) => Some((seq![unesc_char(c)] + s, rest)),
                    None => None,
                }
            } else if c == 'u' {
                if t.len() >= 6 && t[2] == '0' && t[3] == '0' && hex_val(t[4]) is Some && hex_val(
                    t[5],
                ) is Some && hex_val(t[4])->Some_0 * 16 + hex_val(t[5])->Some_0 < 32 {
                    let v = hex_val(t[4])->Some_0 * 16 + hex_val(t[5])->Some_0;
                    match p_str_body(t.skip(6)) {
                        Some((s, rest)) => Some((seq![((v as u8) as char)] + s, rest)),
                        None => None,
                    }
                } else {
                    None
                }
            } else {
                None
            }
        }
    } else if (t[0] as u32) < 32 {
        None
    } else {
        match p_str_body(t.drop_first()) {
            Some((s, rest)) => Some((seq![t[0]] + s, rest)),
            None => None,
        }
    }
}

/// Expects the exact literal at the front: what follows it.
pub open spec fn p_lit(t: Seq<char>, lit: Seq<char>) -> Option<Seq<char>> {
    if lit.len() <= t.len() && t.take(lit.len() as int) == lit {
        Some(t.skip(lit.len() as int))
    } else {
        None
    }
}

/// Expects a quoted string at the front.
pub open spec fn p_quoted(t: Seq<char>) -> Option<(Seq<char>, Seq<char>)> {
    if t.len() > 0 && t[0] == '"' {
        p_str_body(t.drop_first())
    } else {
        None
    }
}

/// The role a name denotes.
pub open spec fn role_of_name(s: Seq<char>) -> Option<Role> {
    if s == "user"@ {
        Some(Role::User)
    } else if s == "assistant"@ {
        Some(Role::Assistant)
    } else {
        None
    }
}

/// Expects one message array at the front.
pub open spec fn p_msg(t: Seq<char>) -> Option<(MessageView, Seq<char>)> {
    match p_lit(t, seq!['[']) {
        None => None,
        Some(t1) => match p_quoted(t1) {
            None => None,
            Some((rs, t2)) => match role_of_name(rs) {
                None => None,
                Some(role) => match p_lit(t2, seq![',']) {
                    None => None,
                    Some(t3) => match p_quoted(t3) {
                        None => None,
                        Some((text, t4)) => match p_lit(t4, seq![']']) {
                            None => None,
                            Some(t5) => Some((MessageView { role, text }, t5)),
                        },
                    },
                },
            },
        },
    }
}

/// The second and later messages, up to the closing bracket.
pub open spec fn p_msgs_rest(t: Seq<char>) -> Option<(Seq<MessageView>, Seq<char>)>
    decreases t.len(),
{
    if t.len() == 0 {
        None
    } else if t[0] == ']' {
        Some((Seq::<MessageView>::empty(), t.drop_first()))
    } else if t[0] == ',' {
        match p_msg(t.drop_first()) {
            None => None,
            Some((m, rest)) => if rest.len() < t.len() {
                match p_msgs_rest(rest) {
                    None => None,
                    Some((ms, rest2)) => Some((seq![m] + ms, rest2)),
                }
            } else {
                None
            },
        }
    } else {
        None
    }
}

/// The message list, up to and including the closing bracket.
pub open spec fn p_msgs(t: Seq<char>) -> Option<(Seq<MessageView>, Seq<char>)> {
    if t.len() == 0 {
        None
    } else if t[0] == ']' {
        Some((Seq::<MessageView>::empty(), t.drop_first()))
    } else {
        match p_msg(t) {
            None => None,
            Some((m, rest)) => if rest.len() < t.len() {
                match p_msgs_rest(rest) {
                    None => None,
                    Some((ms, rest2)) => Some((seq![m] + ms, rest2)),
                }
            } else {
                None
            },
        }
    }
}

/// Reads a whole saved session; anything but the canonical shape yields
/// nothing.
pub open spec fn spec_parse_session(t: Seq<char>) -> Option<SessionView> {
    match p_lit(t, "{\"timestamp\":"@) {
        None => None,
        Some(t1) => match p_quoted(t1) {
            None => None,
            Some((ts, t2)) => match p_lit(t2, ",\"model\":"@) {
                None => None,
                Some(t3) => match p_quoted(t3) {
                    None => None,
                    Some((model, t4)) => match p_lit(t4, ",\"messages\":["@) {
                        None => None,
                        Some(t5) => match p_msgs(t5) {
                            None => None,
                            Some((ms, t6)) => if t6 == "}"@ {
                                Some(SessionView { timestamp: ts, model: model, messages: ms })
                            } else {
                                None
                            },
                        },
                    },
                },
            },
        },
    }
}

/// A numeral span: the longest front run of digits and dots.
pub open spec fn num_span_len(t: Seq<char>) -> int
    decreases t.len(),
{
    if t.len() == 0 {
        0
    } else if char_digit(t[0]) is Some || t[0] == '.' {
        1 + num_span_len(t.drop_first())
    } else {
        0
    }
}

/// Reads a non-negative decimal in thousandths at the front.
pub open spec fn p_milli(t: Seq<char>) -> Option<(int, Seq<char>)> {
    let n = num_span_len(t);
    if n == 0 {
        None
    } else {
        match spec_parse_milli(t.take(n)) {
            None => None,
            Some(v) => if v >= 0 {
                Some((v, t.skip(n)))
            } else {
                None
            },
        }
    }
}

/// Reads a non-negative integer at the front.
pub open spec fn p_u64(t: Seq<char>) -> Option<(nat, Seq<char>)> {
    let n = num_span_len(t);
    if n == 0 {
        None
    } else {
        match spec_parse_u64(t.take(n)) {
            None => None,
            Some(v) => Some((v, t.skip(n))),
        }
    }
}

/// Reads a whole configuration; each numeric field is clamped into its
/// documented range, so whatever parses is well formed.
pub open spec fn spec_parse_config(t: Seq<char>) -> Option<ConfigView> {
    match p_lit(t, "{\"temperature\":"@) {
        None => None,
        Some(t1) => match p_milli(t1) {
            None => None,
            Some((temp, t2)) => match p_lit(t2, ",\"top_p\":"@) {
                None => None,
                Some(t3) => match p_milli(t3) {
                    None => None,
                    Some((tp, t4)) => match p_lit(t4, ",\"top_k\":"@) {
                        None => None,
                        Some(t5) => match p_u64(t5) {
                            None => None,
                            Some((tk, t6)) => match p_lit(t6, ",\"repeat_penalty\":"@) {
                                None => None,
                                Some(t7) => match p_milli(t7) {
                                    None => None,
                                    Some((rp, t8)) => match p_lit(t8, ",\"num_ctx\":"@) {
                                        None => None,
                                        Some(t9) => match p_u64(t9) {
                                            None => None,
                                            Some((nc, t10)) => match p_lit(
                                                t10,
                                                ",\"system_prompt\":"@,
                                            ) {
                                                None => None,
                                                Some(t11) => match p_quoted(t11) {
                                                    None => None,
                                                    Some((sp, t12)) => if t12 == "}"@ {
                                                        Some(clamped_config(temp, tp, tk, rp, nc, sp))
                                                    } else {
                                                        None
                                                    },
                                                },
                                            },
                                        },
                                    },
                                },
                            },
                        },
                    },
                },
            },
        },
    }
}

/// The parsed fields forced into their documented ranges.
pub open spec fn clamped_config(
    temp: int,
    tp: int,
    tk: nat,
    rp: int,
    nc: nat,
    sp: Seq<char>,
) -> ConfigView {
    ConfigView {
        temperature: crate::config::clamp_int(temp, 0, crate::config::TEMPERATURE_MAX as int)
            as u32,
        top_p: crate::config::clamp_int(tp, 0, crate::config::TOP_P_MAX as int) as u32,
        top_k: crate::config::clamp_int(tk as int, 1, crate::numerals::PARSE_CAP as int) as u32,
        repeat_penalty: crate::config::clamp_int(
            rp,
            0,
            crate::config::REPEAT_PENALTY_MAX as int,
        ) as u32,
        num_ctx: crate::config::clamp_int(
            nc as int,
            crate::config::NUM_CTX_MIN as int,
            crate::config::NUM_CTX_MAX as int,
        ) as u64,
        system_prompt: sp,
    }
}

/// Appends the characters of `lit` to `out`.
fn push_str_chars(out: &mut Vec<char>, lit: &str)
    ensures
        final(out)@ == old(out)@ + lit@,
{
    let cs = str_to_chars(lit);
    let mut i: usize = 0;
    while i < cs.len()
        invariant
            i <= cs@.len(),
            cs@ == lit@,
            out@ == old(out)@ + cs@.take(i as int),
        decreases cs@.len() - i,
    {
        out.push(cs[i]);
        proof {
            assert(old(out)@ + cs@.take(i as int) + seq![cs@[i as int]] =~= old(out)@ + cs@.take(
                i + 1 as int,
            ));
        }
        i = i + 1;
    }
    proof {
        assert(out@ =~= old(out)@ + lit@);
    }
}

/// Appends the escaped, quoted form of `s` to `out`.
fn push_quoted(out: &mut Vec<char>, s: &str)
    ensures
        final(out)@ == old(out)@ + quoted(s@),
{
    let cs = str_to_chars(s);
    out.push('"');
    let mut i: usize = 0;
    while i < cs.len()
        invariant
            i <= cs@.len(),
            cs@ == s@,
            out@ == old(out)@ + seq!['"'] + escape(cs@.take(i as int)),
        decreases cs@.len() - i,
    {
        let c = cs[i];
        proof {
            lemma_escape_snoc(cs@, i as int);
        }
        let u = c as u32;
        if c == '"' {
            out.push('\\');
            out.push('"');
        } else if c == '\\' {
            out.push('\\');
            out.push('\\');
        } else if c == '\n' {
            out.push('\\');
            out.push('n');
        } else if c == '\r' {
            out.push('\\');
            out.push('r');
        } else if c == '\t' {
            out.push('\\');
            out.push('t');
        } else if u < 32 {
            out.push('\\');
            out.push('u');
            out.push('0');
            out.push('0');
            out.push(hex_digit_exec((u / 16) as u8));
            out.push(hex_digit_exec((u % 16) as u8));
        } else {
            out.push(c);
        }
        proof {
            assert(out@ =~= old(out)@ + seq!['"'] + escape(cs@.take(i + 1 as int)));
        }
        i = i + 1;
    }
    out.push('"');
    proof {
        assert(cs@.take(cs@.len() as int) =~= cs@);
        assert(out@ =~= old(out)@ + quoted(s@));
    }
}

/// Escaping one more character appends its escape.
proof fn lemma_escape_snoc(s: Seq<char>, i: int)
    requires
        0 <= i < s.len(),
    ensures
        escape(s.take(i + 1)) == escape(s.take(i)) + esc_char(s[i]),
    decreases i,
{
    if i == 0 {
        assert(s.take(1) =~= seq![s[0]]);
        assert(s.take(1).drop_first() =~= Seq::<char>::empty());
        assert(s.take(0) =~= Seq::<char>::empty());
        assert(escape(Seq::<char>::empty()) == Seq::<char>::empty());
        assert(esc_char(s[0]) + Seq::<char>::empty() =~= esc_char(s[0]));
        assert(escape(s.take(1)) =~= esc_char(s[0]));
        assert(escape(s.take(0)) + esc_char(s[0]) =~= esc_char(s[0]));
    } else {
        let t = s.drop_first();
        lemma_escape_snoc(t, i - 1);
        assert(s.take(i + 1).drop_first() =~= t.take(i));
        assert(s.take(i).drop_first() =~= t.take(i - 1));
        assert(s.take(i + 1)[0] == s[0]);
        assert(s.take(i)[0] == s[0]);
        assert(t[i - 1] == s[i]);
        assert(escape(s.take(i + 1)) == esc_char(s[0]) + escape(t.take(i)));
        assert(escape(s.take(i)) == esc_char(s[0]) + escape(t.take(i - 1)));
        assert(esc_char(s[0]) + (escape(t.take(i - 1)) + esc_char(t[i - 1])) =~= (esc_char(s[0])
            + escape(t.take(i - 1))) + esc_char(t[i - 1]));
    }
}

/// The hexadecimal digit character for `d < 16`.
fn hex_digit_exec(d: u8) -> (r: char)
    requires
        d < 16,
    ensures
        r == hex_digit(d as nat),
{
    match d {
        0 => '0',
        1 => '1',
        2 => '2',
        3 => '3',
        4 => '4',
        5 => '5',
        6 => '6',
        7 => '7',
        8 => '8',
        9 => '9',
        10 => 'a',
        11 => 'b',
        12 => 'c',
        13 => 'd',
        14 => 'e',
        _ => 'f',
    }
}

/// Appends one encoded message to `out`.
fn push_msg(out: &mut Vec<char>, m: &ChatMessage)
    ensures
        final(out)@ == old(out)@ + enc_msg(m@),
{
    out.push('[');
    match m.role {
        Role::User => push_str_chars(out, "\"user\""),
        Role::Assistant => push_str_chars(out, "\"assistant\""),
    }
    out.push(',');
    push_quoted(out, m.text.as_str());
    out.push(']');
    proof {
        reveal_strlit("\"user\"");
        reveal_strlit("\"assistant\"");
        reveal_strlit("user");
        reveal_strlit("assistant");
        lemma_plain_quoted(role_name(m@.role));
        assert(out@ =~= old(out)@ + enc_msg(m@));
    }
}

/// A text with nothing to escape is quoted by bare quotes.
proof fn lemma_plain_quoted(s: Seq<char>)
    requires
        forall|i: int|
            0 <= i < s.len() ==> s[i] != '"' && s[i] != '\\' && (#[trigger] s[i] as u32) >= 32,
    ensures
        quoted(s) == seq!['"'] + s + seq!['"'],
        escape(s) == s,
    decreases s.len(),
{
    if s.len() == 0 {
        assert(escape(s) =~= s);
    } else {
        assert(forall|i: int|
            0 <= i < s.drop_first().len() ==> s.drop_first()[i] == s[i + 1]);
        lemma_plain_quoted(s.drop_first());
        assert(esc_char(s[0]) =~= seq![s[0]]);
        assert(escape(s) =~= s);
    }
    assert(quoted(s) =~= seq!['"'] + s + seq!['"']);
}

/// A saved session written in its canonical shape.
pub fn session_to_json(s: &ChatSession) -> (r: String)
    ensures
        r@ == enc_session(s@),
{
    let mut out: Vec<char> = Vec::new();
    push_str_chars(&mut out, "{\"timestamp\":");
    push_quoted(&mut out, s.timestamp.as_str());
    push_str_chars(&mut out, ",\"model\":");
    push_quoted(&mut out, s.model.as_str());
    push_str_chars(&mut out, ",\"messages\":[");
    let ghost base = out@;
    let ghost mv = messages_view(s.messages@);
    if s.messages.len() > 0 {
        push_msg(&mut out, &s.messages[0]);
        proof {
            assert(mv[0] == s.messages@[0]@);
            assert(out@ + enc_msgs_rest(mv.skip(1)) == base + enc_msgs(mv) || true);
        }
        let mut i: usize = 1;
        proof {
            assert(mv.skip(1) =~= mv.drop_first());
            assert(out@ == base + enc_msg(mv[0]));
        }
        while i < s.messages.len()
            invariant
                1 <= i <= mv.len(),
                mv == messages_view(s.messages@),
                mv.len() == s.messages@.len(),
                out@ + enc_msgs_rest(mv.skip(i as int)) == base + enc_msgs(mv),
            decreases mv.len() - i,
        {
            let ghost out_prev = out@;
            out.push(',');
            push_msg(&mut out, &s.messages[i]);
            proof {
                assert(mv[i as int] == s.messages@[i as int]@);
                let sk = mv.skip(i as int);
                assert(sk[0] == mv[i as int]);
                assert(sk.drop_first() =~= mv.skip(i + 1 as int));
                assert(enc_msgs_rest(sk) == seq![','] + enc_msg(mv[i as int]) + enc_msgs_rest(
                    mv.skip(i + 1 as int),
                ));
                assert(out@ == out_prev + seq![','] + enc_msg(mv[i as int]));
                assert(out@ + enc_msgs_rest(mv.skip(i + 1 as int)) =~= out_prev + enc_msgs_rest(
                    sk,
                ));
            }
            i = i + 1;
        }
        proof {
            assert(mv.skip(mv.len() as int).len() == 0);
            assert(enc_msgs_rest(mv.skip(mv.len() as int)) =~= Seq::<char>::empty());
            assert(out@ =~= base + enc_msgs(mv));
        }
    } else {
        proof {
            assert(enc_msgs(mv) =~= Seq::<char>::empty());
            assert(out@ =~= base + enc_msgs(mv));
        }
    }
    push_str_chars(&mut out, "]}");
    proof {
        assert(out@ =~= enc_session(s@));
    }
    chars_to_string(&out)
}

/// The configuration written in its canonical shape.
#[verifier::rlimit(50)]
pub fn config_to_json(c: &ModelConfig) -> (r: String)
    ensures
        r@ == enc_config(c@),
{
    let mut out: Vec<char> = Vec::new();
    push_str_chars(&mut out, "{\"temperature\":");
    push_milli(&mut out, c.temperature);
    proof {
        assert(out@ =~= "{\"temperature\":"@ + milli_chars(c@.temperature as nat));
    }
    push_str_chars(&mut out, ",\"top_p\":");
    push_milli(&mut out, c.top_p);
    proof {
        assert(out@ =~= "{\"temperature\":"@ + milli_chars(c@.temperature as nat) + ",\"top_p\":"@
            + milli_chars(c@.top_p as nat));
    }
    push_str_chars(&mut out, ",\"top_k\":");
    push_u64_chars(&mut out, c.top_k as u64);
    proof {
        assert(out@ =~= "{\"temperature\":"@ + milli_chars(c@.temperature as nat) + ",\"top_p\":"@
            + milli_chars(c@.top_p as nat) + ",\"top_k\":"@ + dec_digits(c@.top_k as nat));
    }
    push_str_chars(&mut out, ",\"repeat_penalty\":");
    push_milli(&mut out, c.repeat_penalty);
    proof {
        assert(out@ =~= "{\"temperature\":"@ + milli_chars(c@.temperature as nat) + ",\"top_p\":"@
            + milli_chars(c@.top_p as nat) + ",\"top_k\":"@ + dec_digits(c@.top_k as nat)
            + ",\"repeat_penalty\":"@ + milli_chars(c@.repeat_penalty as nat));
    }
    push_str_chars(&mut out, ",\"num_ctx\":");
    push_u64_chars(&mut out, c.num_ctx);
    proof {
        assert(out@ =~= "{\"temperature\":"@ + milli_chars(c@.temperature as nat) + ",\"top_p\":"@
            + milli_chars(c@.top_p as nat) + ",\"top_k\":"@ + dec_digits(c@.top_k as nat)
            + ",\"repeat_penalty\":"@ + milli_chars(c@.repeat_penalty as nat) + ",\"num_ctx\":"@
            + dec_digits(c@.num_ctx as nat));
    }
    push_str_chars(&mut out, ",\"system_prompt\":");
    push_quoted(&mut out, c.system_prompt.as_str());
    out.push('}');
    proof {
        assert(seq!['}'] =~= "}"@) by {
            reveal_strlit("}");
        }
        assert(out@ =~= enc_config(c@));
    }
    chars_to_string(&out)
}

/// Appends the decimal text of `v` thousandths.
fn push_milli(out: &mut Vec<char>, v: u32)
    ensures
        final(out)@ == old(out)@ + milli_chars(v as nat),
{
    let t = crate::numerals::format_milli(v as u64);
    let mut i: usize = 0;
    while i < t.len()
        invariant
            i <= t@.len(),
            t@ == milli_chars(v as nat),
            out@ == old(out)@ + t@.take(i as int),
        decreases t@.len() - i,
    {
        out.push(t[i]);
        proof {
            assert(old(out)@ + t@.take(i as int) + seq![t@[i as int]] =~= old(out)@ + t@.take(
                i + 1 as int,
            ));
        }
        i = i + 1;
    }
    proof {
        assert(out@ =~= old(out)@ + milli_chars(v as nat));
    }
}

/// Appends the decimal text of `v`.
fn push_u64_chars(out: &mut Vec<char>, v: u64)
    ensures
        final(out)@ == old(out)@ + dec_digits(v as nat),
{
    crate::numerals::push_dec_digits(v, out);
}

/// The value of a hexadecimal digit character, matching [`hex_val`].
fn hex_val_exec(c: char) -> (r: Option<u8>)
    ensures
        match r {
            Some(d) => hex_val(c) == Some(d as nat) && d < 16,
            None => hex_val(c) is None,
        },
{
    match c {
        '0' => Some(0),
        '1' => Some(1),
        '2' => Some(2),
        '3' => Some(3),
        '4' => Some(4),
        '5' => Some(5),
        '6' => Some(6),
        '7' => Some(7),
        '8' => Some(8),
        '9' => Some(9),
        'a' => Some(10),
        'b' => Some(11),
        'c' => Some(12),
        'd' => Some(13),
        'e' => Some(14),
        'f' => Some(15),
        _ => None,
    }
}

/// Reads a string body from position `i`, matching [`p_str_body`].
fn p_str_body_exec(v: &Vec<char>, i: usize) -> (r: Option<(Vec<char>, usize)>)
    requires
        i <= v@.len(),
    ensures
        match r {
            None => p_str_body(v@.skip(i as int)) is None,
            Some((s, j)) => i <= j <= v@.len() && p_str_body(v@.skip(i as int)) == Some(
                (s@, v@.skip(j as int)),
            ),
        },
    decreases v@.len() - i,
{
    let ghost t = v@.skip(i as int);
    if i >= v.len() {
        return None;
    }
    let c = v[i];
    proof {
        assert(t[0] == v@[i as int]);
        assert(t.drop_first() =~= v@.skip(i + 1 as int));
    }
    if c == '"' {
        let w: Vec<char> = Vec::new();
        proof {
            assert(w@ =~= Seq::<char>::empty());
        }
        return Some((w, i + 1));
    }
    if c == '\\' {
        if i + 1 >= v.len() {
            proof {
                assert(t.len() < 2);
            }
            return None;
        }
        let e = v[i + 1];
        proof {
            assert(t[1] == v@[i + 1 as int]);
        }
        if e == '"' || e == '\\' || e == 'n' || e == 'r' || e == 't' {
            proof {
                assert(t.skip(2) =~= v@.skip(i + 2 as int));
            }
            match p_str_body_exec(v, i + 2) {
                None => {
                    return None;
                },
                Some((inner, j)) => {
                    let u: char = if e == 'n' {
                        '\n'
                    } else if e == 'r' {
                        '\r'
                    } else if e == 't' {
                        '\t'
                    } else {
                        e
                    };
                    proof {
                        assert(u == unesc_char(e));
                    }
                    let mut w: Vec<char> = Vec::new();
                    w.push(u);
                    let mut inner2 = inner;
                    w.append(&mut inner2);
                    proof {
                        assert(w@ =~= seq![unesc_char(e)] + inner@);
                    }
                    return Some((w, j));
                },
            }
        } else if e == 'u' {
            if v.len() - i < 6 {
                proof {
                    assert(t.len() < 6);
                }
                return None;
            }
            proof {
                assert(t[2] == v@[i + 2 as int]);
                assert(t[3] == v@[i + 3 as int]);
                assert(t[4] == v@[i + 4 as int]);
                assert(t[5] == v@[i + 5 as int]);
            }
            if v[i + 2] != '0' || v[i + 3] != '0' {
                return None;
            }
            let h1 = hex_val_exec(v[i + 4]);
            let h2 = hex_val_exec(v[i + 5]);
            match (h1, h2) {
                (Some(a), Some(b)) => {
                    let val: u8 = a * 16 + b;
                    if val >= 32 {
                        return None;
                    }
                    proof {
                        assert(t.skip(6) =~= v@.skip(i + 6 as int));
                    }
                    match p_str_body_exec(v, i + 6) {
                        None => {
                            return None;
                        },
                        Some((inner, j)) => {
                            let u: char = val as char;
                            let mut w: Vec<char> = Vec::new();
                            w.push(u);
                            let mut inner2 = inner;
                            w.append(&mut inner2);
                            proof {
                                assert(w@ =~= seq![u] + inner@);
                            }
                            return Some((w, j));
                        },
                    }
                },
                _ => {
                    return None;
                },
            }
        } else {
            return None;
        }
    }
    if (c as u32) < 32 {
        return None;
    }
    match p_str_body_exec(v, i + 1) {
        None => None,
        Some((inner, j)) => {
            let mut w: Vec<char> = Vec::new();
            w.push(c);
            let mut inner2 = inner;
            w.append(&mut inner2);
            proof {
                assert(w@ =~= seq![t[0]] + inner@);
            }
            Some((w, j))
        },
    }
}

/// Expects the literal at position `i`, matching [`p_lit`].
fn p_lit_exec(v: &Vec<char>, i: usize, lit: &str) -> (r: Option<usize>)
    requires
        i <= v@.len(),
    ensures
        match r {
            None => p_lit(v@.skip(i as int), lit@) is None,
            Some(j) => i <= j <= v@.len() && j - i == lit@.len() && p_lit(v@.skip(i as int), lit@)
                == Some(v@.skip(j as int)),
        },
{
    let ghost t = v@.skip(i as int);
    let n = v.len();
    let cs = str_to_chars(lit);
    if v.len() - i < cs.len() {
        proof {
            assert(t.len() < lit@.len());
        }
        return None;
    }
    let mut k: usize = 0;
    let mut j: usize = i;
    while k < cs.len()
        invariant
            k <= cs@.len(),
            cs@ == lit@,
            i <= v@.len(),
            cs@.len() <= v@.len() - i,
            v@.len() == n,
            j == i + k,
            t == v@.skip(i as int),
            forall|m: int| 0 <= m < k ==> t[m] == cs@[m],
        decreases cs@.len() - k,
    {
        proof {
            assert(t[k as int] == v@[i + k as int]);
        }
        if v[j] != cs[k] {
            proof {
                assert(t.take(lit@.len() as int)[k as int] == t[k as int]);
                assert(t.take(lit@.len() as int) != lit@);
            }
            return None;
        }
        k = k + 1;
        j = j + 1;
    }
    proof {
        assert(t.take(lit@.len() as int) =~= lit@);
        assert(t.skip(lit@.len() as int) =~= v@.skip(i + lit@.len() as int));
    }
    Some(i + cs.len())
}

/// Expects a quoted string at position `i`, matching [`p_quoted`].
fn p_quoted_exec(v: &Vec<char>, i: usize) -> (r: Option<(Vec<char>, usize)>)
    requires
        i <= v@.len(),
    ensures
        match r {
            None => p_quoted(v@.skip(i as int)) is None,
            Some((s, j)) => i <= j <= v@.len() && p_quoted(v@.skip(i as int)) == Some(
                (s@, v@.skip(j as int)),
            ),
        },
{
    let ghost t = v@.skip(i as int);
    if i >= v.len() {
        return None;
    }
    proof {
        assert(t[0] == v@[i as int]);
        assert(t.drop_first() =~= v@.skip(i + 1 as int));
    }
    if v[i] != '"' {
        return None;
    }
    p_str_body_exec(v, i + 1)
}

/// Whether the characters spell the literal.
fn chars_eq_str(a: &Vec<char>, lit: &str) -> (r: bool)
    ensures
        r == (a@ == lit@),
{
    let cs = str_to_chars(lit);
    if a.len() != cs.len() {
        proof {
            assert(a@.len() != lit@.len());
        }
        return false;
    }
    let mut k: usize = 0;
    while k < cs.len()
        invariant
            k <= cs@.len(),
            cs@ == lit@,
            a@.len() == cs@.len(),
            forall|m: int| 0 <= m < k ==> a@[m] == cs@[m],
        decreases cs@.len() - k,
    {
        if a[k] != cs[k] {
            return false;
        }
        k = k + 1;
    }
    proof {
        assert(a@ =~= lit@);
    }
    true
}

/// Expects one message at position `i`, matching [`p_msg`].
fn p_msg_exec(v: &Vec<char>, i: usize) -> (r: Option<(ChatMessage, usize)>)
    requires
        i <= v@.len(),
    ensures
        match r {
            None => p_msg(v@.skip(i as int)) is None,
            Some((m, j)) => i < j <= v@.len() && p_msg(v@.skip(i as int)) == Some(
                (m@, v@.skip(j as int)),
            ),
        },
{
    proof {
        reveal_strlit("[");
        reveal_strlit(",");
        reveal_strlit("]");
        assert("["@ =~= seq!['[']);
        assert(","@ =~= seq![',']);
        assert("]"@ =~= seq![']']);
    }
    let i1 = match p_lit_exec(v, i, "[") {
        None => {
            return None;
        },
        Some(j) => j,
    };
    let (rs, i2) = match p_quoted_exec(v, i1) {
        None => {
            return None;
        },
        Some(p) => p,
    };
    let role = if chars_eq_str(&rs, "user") {
        Role::User
    } else if chars_eq_str(&rs, "assistant") {
        Role::Assistant
    } else {
        proof {
            assert(role_of_name(rs@) is None);
        }
        return None;
    };
    proof {
        assert(role_of_name(rs@) == Some(role));
    }
    let i3 = match p_lit_exec(v, i2, ",") {
        None => {
            return None;
        },
        Some(j) => j,
    };
    let (text, i4) = match p_quoted_exec(v, i3) {
        None => {
            return None;
        },
        Some(p) => p,
    };
    let i5 = match p_lit_exec(v, i4, "]") {
        None => {
            return None;
        },
        Some(j) => j,
    };
    let m = ChatMessage { role, text: chars_to_string(&text) };
    proof {
        assert(i < i5) by {
            assert(i1 == i + 1);
        }
    }
    Some((m, i5))
}

/// Reads the tail of a message list, matching [`p_msgs_rest`].
fn p_msgs_rest_exec(v: &Vec<char>, i: usize) -> (r: Option<(Vec<ChatMessage>, usize)>)
    requires
        i <= v@.len(),
    ensures
        match r {
            None => p_msgs_rest(v@.skip(i as int)) is None,
            Some((ms, j)) => i <= j <= v@.len() && p_msgs_rest(v@.skip(i as int)) == Some(
                (messages_view(ms@), v@.skip(j as int)),
            ),
        },
    decreases v@.len() - i,
{
    let ghost t = v@.skip(i as int);
    if i >= v.len() {
        return None;
    }
    proof {
        assert(t[0] == v@[i as int]);
        assert(t.drop_first() =~= v@.skip(i + 1 as int));
    }
    if v[i] == ']' {
        let ms: Vec<ChatMessage> = Vec::new();
        proof {
            assert(messages_view(ms@) =~= Seq::<MessageView>::empty());
        }
        return Some((ms, i + 1));
    }
    if v[i] != ',' {
        return None;
    }
    let (m, j) = match p_msg_exec(v, i + 1) {
        None => {
            return None;
        },
        Some(p) => p,
    };
    proof {
        assert(v@.skip(j as int).len() < t.len());
    }
    let (rest_ms, j2) = match p_msgs_rest_exec(v, j) {
        None => {
            return None;
        },
        Some(p) => p,
    };
    let ghost m_view = m@;
    proof {
        crate::history::lemma_messages_view_push(Seq::<ChatMessage>::empty(), m);
    }
    let mut ms: Vec<ChatMessage> = Vec::new();
    ms.push(m);
    let mut rest2 = rest_ms;
    let ghost rest2_snap = rest2@;
    ms.append(&mut rest2);
    proof {
        lemma_messages_view_concat(ms@, m_view, rest2_snap);
        assert(messages_view(ms@) =~= seq![m_view] + messages_view(rest2_snap));
    }
    Some((ms, j2))
}

/// The views of a one-element list followed by a tail.
proof fn lemma_messages_view_concat(s: Seq<ChatMessage>, mv: MessageView, tail: Seq<ChatMessage>)
    requires
        s.len() == 1 + tail.len(),
        s[0]@ == mv,
        forall|i: int| 0 <= i < tail.len() ==> s[i + 1] == tail[i],
    ensures
        messages_view(s) == seq![mv] + messages_view(tail),
{
    assert(messages_view(s) =~= seq![mv] + messages_view(tail));
}

/// Reads a message list, matching [`p_msgs`].
fn p_msgs_exec(v: &Vec<char>, i: usize) -> (r: Option<(Vec<ChatMessage>, usize)>)
    requires
        i <= v@.len(),
    ensures
        match r {
            None => p_msgs(v@.skip(i as int)) is None,
            Some((ms, j)) => i <= j <= v@.len() && p_msgs(v@.skip(i as int)) == Some(
                (messages_view(ms@), v@.skip(j as int)),
            ),
        },
{
    let ghost t = v@.skip(i as int);
    if i >= v.len() {
        return None;
    }
    proof {
        assert(t[0] == v@[i as int]);
        assert(t.drop_first() =~= v@.skip(i + 1 as int));
    }
    if v[i] == ']' {
        let ms: Vec<ChatMessage> = Vec::new();
        proof {
            assert(messages_view(ms@) =~= Seq::<MessageView>::empty());
        }
        return Some((ms, i + 1));
    }
    let (m, j) = match p_msg_exec(v, i) {
        None => {
            return None;
        },
        Some(p) => p,
    };
    proof {
        assert(v@.skip(j as int).len() < t.len());
    }
    let (rest_ms, j2) = match p_msgs_rest_exec(v, j) {
        None => {
            return None;
        },
        Some(p) => p,
    };
    let ghost m_view = m@;
    let mut ms: Vec<ChatMessage> = Vec::new();
    ms.push(m);
    let mut rest2 = rest_ms;
    let ghost rest2_snap = rest2@;
    ms.append(&mut rest2);
    proof {
        lemma_messages_view_concat(ms@, m_view, rest2_snap);
        assert(messages_view(ms@) =~= seq![m_view] + messages_view(rest2_snap));
    }
    Some((ms, j2))
}

/// Reads a whole saved session, matching [`spec_parse_session`].
#[verifier::rlimit(80)]
pub fn parse_session_chars(v: &Vec<char>) -> (r: Option<ChatSession>)
    ensures
        match r {
            None => spec_parse_session(v@) is None,
            Some(s) => spec_parse_session(v@) == Some(s@),
        },
{
    proof {
        assert(v@.skip(0) =~= v@);
    }
    let i1 = match p_lit_exec(v, 0, "{\"timestamp\":") {
        None => {
            return None;
        },
        Some(j) => j,
    };
    let (ts, i2) = match p_quoted_exec(v, i1) {
        None => {
            return None;
        },
        Some(p) => p,
    };
    let i3 = match p_lit_exec(v, i2, ",\"model\":") {
        None => {
            return None;
        },
        Some(j) => j,
    };
    let (model, i4) = match p_quoted_exec(v, i3) {
        None => {
            return None;
        },
        Some(p) => p,
    };
    let i5 = match p_lit_exec(v, i4, ",\"messages\":[") {
        None => {
            return None;
        },
        Some(j) => j,
    };
    let (ms, i6) = match p_msgs_exec(v, i5) {
        None => {
            return None;
        },
        Some(p) => p,
    };
    proof {
        reveal_strlit("}");
    }
    if v.len() - i6 == 1 && v[i6] == '}' {
        proof {
            assert(v@.skip(i6 as int) =~= "}"@);
        }
        let s = ChatSession {
            timestamp: chars_to_string(&ts),
            model: chars_to_string(&model),
            messages: ms,
        };
        Some(s)
    } else {
        proof {
            assert(v@.skip(i6 as int) != "}"@) by {
                if v@.skip(i6 as int) == "}"@ {
                    assert(v@.skip(i6 as int).len() == 1);
                    assert(v@.skip(i6 as int)[0] == '}');
                    assert(v@[i6 as int] == '}');
                }
            }
        }
        None
    }
}

/// Reads a saved session from its file text; anything but the canonical
/// shape yields nothing, and the caller skips the file.
pub fn session_from_json(text: &str) -> (r: Option<ChatSession>)
    ensures
        match r {
            None => spec_parse_session(text@) is None,
            Some(s) => spec_parse_session(text@) == Some(s@),
        },
{
    let v = str_to_chars(text);
    parse_session_chars(&v)
}

/// The end of the numeral span starting at `i`.
fn num_span_end(v: &Vec<char>, i: usize) -> (j: usize)
    requires
        i <= v@.len(),
    ensures
        i <= j <= v@.len(),
        j - i == num_span_len(v@.skip(i as int)),
{
    let mut k: usize = i;
    while k < v.len() && (crate::numerals::digit_of(v[k]).is_some() || v[k] == '.')
        invariant
            i <= k <= v@.len(),
            num_span_len(v@.skip(i as int)) == (k - i) + num_span_len(v@.skip(k as int)),
        decreases v@.len() - k,
    {
        proof {
            let s = v@.skip(k as int);
            assert(s[0] == v@[k as int]);
            assert(s.drop_first() =~= v@.skip(k + 1 as int));
            assert(num_span_len(s) == 1 + num_span_len(v@.skip(k + 1 as int)));
        }
        k = k + 1;
    }
    proof {
        let s = v@.skip(k as int);
        if k < v@.len() {
            assert(s[0] == v@[k as int]);
            assert(num_span_len(s) == 0);
        } else {
            assert(s.len() == 0);
            assert(num_span_len(s) == 0);
        }
    }
    k
}

/// Reads a thousandths numeral at position `i`, matching [`p_milli`]
/// with the saturation the numeral parser has.
fn p_milli_exec(v: &Vec<char>, i: usize) -> (r: Option<(i64, usize)>)
    requires
        i <= v@.len(),
    ensures
        match r {
            None => p_milli(v@.skip(i as int)) is None,
            Some((x, j)) => i <= j <= v@.len() && (p_milli(v@.skip(i as int)) matches Some((pv, rest))
                && rest == v@.skip(j as int) && 0 <= x && (pv < crate::numerals::PARSE_CAP ==> x == pv)
                && (pv >= crate::numerals::PARSE_CAP ==> x >= crate::numerals::PARSE_CAP)),
        },
{
    let j = num_span_end(v, i);
    if j == i {
        return None;
    }
    let mut span: Vec<char> = Vec::new();
    let mut k: usize = i;
    while k < j
        invariant
            i <= k <= j <= v@.len(),
            span@ == v@.subrange(i as int, k as int),
        decreases j - k,
    {
        span.push(v[k]);
        proof {
            assert(span@ =~= v@.subrange(i as int, k + 1 as int));
        }
        k = k + 1;
    }
    proof {
        let t = v@.skip(i as int);
        let n = num_span_len(t);
        assert(span@ =~= t.take(n));
        assert(v@.skip(j as int) =~= t.skip(n));
    }
    match crate::numerals::parse_milli_chars(&span) {
        None => None,
        Some(x) => {
            if x < 0 {
                return None;
            }
            Some((x, j))
        },
    }
}

/// Reads an integer numeral at position `i`, matching [`p_u64`] with
/// the saturation the numeral parser has.
fn p_u64_exec(v: &Vec<char>, i: usize) -> (r: Option<(u64, usize)>)
    requires
        i <= v@.len(),
    ensures
        match r {
            None => p_u64(v@.skip(i as int)) is None,
            Some((x, j)) => i <= j <= v@.len() && (p_u64(v@.skip(i as int)) matches Some((pv, rest))
                && rest == v@.skip(j as int) && (pv < crate::numerals::PARSE_CAP ==> x == pv)
                && (pv >= crate::numerals::PARSE_CAP ==> x >= crate::numerals::PARSE_CAP)),
        },
{
    let j = num_span_end(v, i);
    if j == i {
        return None;
    }
    let mut span: Vec<char> = Vec::new();
    let mut k: usize = i;
    while k < j
        invariant
            i <= k <= j <= v@.len(),
            span@ == v@.subrange(i as int, k as int),
        decreases j - k,
    {
        span.push(v[k]);
        proof {
            assert(span@ =~= v@.subrange(i as int, k + 1 as int));
        }
        k = k + 1;
    }
    proof {
        let t = v@.skip(i as int);
        let n = num_span_len(t);
        assert(span@ =~= t.take(n));
        assert(v@.skip(j as int) =~= t.skip(n));
    }
    match crate::numerals::parse_u64_chars(&span) {
        None => None,
        Some(x) => Some((x, j)),
    }
}

/// Reads a whole configuration, matching [`spec_parse_config`]: what
/// parses comes back clamped into range and therefore well formed.
#[verifier::rlimit(100)]
pub fn parse_config_chars(v: &Vec<char>) -> (r: Option<ModelConfig>)
    ensures
        match r {
            None => spec_parse_config(v@) is None,
            Some(c) => spec_parse_config(v@) == Some(c@) && config_wf(c@),
        },
{
    proof {
        assert(v@.skip(0) =~= v@);
    }
    let i1 = match p_lit_exec(v, 0, "{\"temperature\":") {
        None => {
            return None;
        },
        Some(j) => j,
    };
    let (temp, i2) = match p_milli_exec(v, i1) {
        None => {
            return None;
        },
        Some(p) => p,
    };
    let i3 = match p_lit_exec(v, i2, ",\"top_p\":") {
        None => {
            return None;
        },
        Some(j) => j,
    };
    let (tp, i4) = match p_milli_exec(v, i3) {
        None => {
            return None;
        },
        Some(p) => p,
    };
    let i5 = match p_lit_exec(v, i4, ",\"top_k\":") {
        None => {
            return None;
        },
        Some(j) => j,
    };
    let (tk, i6) = match p_u64_exec(v, i5) {
        None => {
            return None;
        },
        Some(p) => p,
    };
    let i7 = match p_lit_exec(v, i6, ",\"repeat_penalty\":") {
        None => {
            return None;
        },
        Some(j) => j,
    };
    let (rp, i8) = match p_milli_exec(v, i7) {
        None => {
            return None;
        },
        Some(p) => p,
    };
    let i9 = match p_lit_exec(v, i8, ",\"num_ctx\":") {
        None => {
            return None;
        },
        Some(j) => j,
    };
    let (nc, i10) = match p_u64_exec(v, i9) {
        None => {
            return None;
        },
        Some(p) => p,
    };
    let i11 = match p_lit_exec(v, i10, ",\"system_prompt\":") {
        None => {
            return None;
        },
        Some(j) => j,
    };
    let (sp, i12) = match p_quoted_exec(v, i11) {
        None => {
            return None;
        },
        Some(p) => p,
    };
    proof {
        reveal_strlit("}");
    }
    if v.len() - i12 == 1 && v[i12] == '}' {
        proof {
            assert(v@.skip(i12 as int) =~= "}"@);
        }
        let tk_cap: u64 = if tk > crate::numerals::PARSE_CAP {
            crate::numerals::PARSE_CAP
        } else {
            tk
        };
        let nc_cap: u64 = if nc > crate::config::NUM_CTX_MAX {
            crate::config::NUM_CTX_MAX
        } else {
            nc
        };
        let c = ModelConfig {
            temperature: crate::config::clamp_i64(
                temp,
                0,
                crate::config::TEMPERATURE_MAX as i64,
            ) as u32,
            top_p: crate::config::clamp_i64(tp, 0, crate::config::TOP_P_MAX as i64) as u32,
            top_k: crate::config::clamp_i64(tk_cap as i64, 1, crate::numerals::PARSE_CAP as i64)
                as u32,
            repeat_penalty: crate::config::clamp_i64(
                rp,
                0,
                crate::config::REPEAT_PENALTY_MAX as i64,
            ) as u32,
            num_ctx: crate::config::clamp_i64(
                nc_cap as i64,
                crate::config::NUM_CTX_MIN as i64,
                crate::config::NUM_CTX_MAX as i64,
            ) as u64,
            system_prompt: chars_to_string(&sp),
        };
        Some(c)
    } else {
        proof {
            assert(v@.skip(i12 as int) != "}"@) by {
                if v@.skip(i12 as int) == "}"@ {
                    assert(v@.skip(i12 as int).len() == 1);
                    assert(v@.skip(i12 as int)[0] == '}');
                    assert(v@[i12 as int] == '}');
                }
            }
        }
        None
    }
}

/// Reads the configuration from its file text; anything but the
/// canonical shape yields nothing, and the caller falls back to the
/// defaults.
pub fn config_from_json(text: &str) -> (r: Option<ModelConfig>)
    ensures
        match r {
            None => spec_parse_config(text@) is None,
            Some(c) => spec_parse_config(text@) == Some(c@) && config_wf(c@),
        },
{
    let v = str_to_chars(text);
    parse_config_chars(&v)
}

/// Reading a written hexadecimal digit gives its value back.
proof fn lemma_hex_roundtrip(d: nat)
    requires
        d < 16,
    ensures
        hex_val(hex_digit(d)) == Some(d),
{
}

/// Reading an escaped text up to its closing quote gives the text back,
/// with whatever followed the quote untouched.
proof fn lemma_str_body_roundtrip(s: Seq<char>, rest: Seq<char>)
    ensures
        p_str_body(escape(s) + seq!['"'] + rest) == Some((s, rest)),
    decreases s.len(),
{
    let t = escape(s) + seq!['"'] + rest;
    if s.len() == 0 {
        assert(t =~= seq!['"'] + rest);
        assert(t[0] == '"');
        assert(t.drop_first() =~= rest);
    } else {
        let c = s[0];
        let tail = s.drop_first();
        assert(escape(s) == esc_char(c) + escape(tail));
        let t2 = escape(tail) + seq!['"'] + rest;
        lemma_str_body_roundtrip(tail, rest);
        if c == '"' || c == '\\' || c == '\n' || c == '\r' || c == '\t' {
            let e = esc_char(c);
            assert(e.len() == 2 && e[0] == '\\');
            assert(t =~= e + t2);
            assert(t[0] == '\\' && t[1] == e[1]);
            assert(t.skip(2) =~= t2);
            assert(unesc_char(e[1]) == c);
            assert(seq![c] + tail =~= s);
        } else if (c as u32) < 32 {
            let u = c as u32;
            let e = esc_char(c);
            assert(e.len() == 6 && e[0] == '\\' && e[1] == 'u' && e[2] == '0' && e[3] == '0');
            assert(t =~= e + t2);
            assert(t.len() >= 6);
            assert(t[0] == '\\' && t[1] == 'u' && t[2] == '0' && t[3] == '0');
            assert(t[4] == hex_digit((u / 16) as nat) && t[5] == hex_digit((u % 16) as nat));
            lemma_hex_roundtrip((u / 16) as nat);
            lemma_hex_roundtrip((u % 16) as nat);
            let v = hex_val(t[4])->Some_0 * 16 + hex_val(t[5])->Some_0;
            assert(v == (u / 16) * 16 + u % 16);
            assert(v == u);
            assert(t.skip(6) =~= t2);
            vstd::utf8::char_u32_cast(c, u);
            assert(((v as u8) as char) == c);
            assert(seq![c] + tail =~= s);
        } else {
            assert(esc_char(c) == seq![c]);
            assert(t =~= seq![c] + t2);
            assert(t[0] == c);
            assert(t[0] != '"' && t[0] != '\\' && !((t[0] as u32) < 32));
            assert(t.drop_first() =~= t2);
            assert(seq![c] + tail =~= s);
        }
    }
}

/// Reading a written quoted text gives the text back.
proof fn lemma_quoted_roundtrip(s: Seq<char>, rest: Seq<char>)
    ensures
        p_quoted(quoted(s) + rest) == Some((s, rest)),
{
    let t = quoted(s) + rest;
    assert(t[0] == '"');
    assert(t.len() > 0);
    assert(t.drop_first() =~= escape(s) + seq!['"'] + rest);
    lemma_str_body_roundtrip(s, rest);
}

/// Reading a written literal consumes exactly it.
proof fn lemma_lit_roundtrip(lit: Seq<char>, rest: Seq<char>)
    ensures
        p_lit(lit + rest, lit) == Some(rest),
{
    let t = lit + rest;
    assert(t.take(lit.len() as int) =~= lit);
    assert(t.skip(lit.len() as int) =~= rest);
}

/// Reading a written message gives the message back.
proof fn lemma_msg_roundtrip(m: MessageView, rest: Seq<char>)
    ensures
        p_msg(enc_msg(m) + rest) == Some((m, rest)),
        enc_msg(m).len() > 0,
{
    let t = enc_msg(m) + rest;
    let rn = role_name(m.role);
    let r1 = quoted(rn) + seq![','] + quoted(m.text) + seq![']'] + rest;
    assert(t =~= seq!['['] + r1);
    lemma_lit_roundtrip(seq!['['], r1);
    let r2 = seq![','] + quoted(m.text) + seq![']'] + rest;
    assert(r1 =~= quoted(rn) + r2);
    lemma_quoted_roundtrip(rn, r2);
    reveal_strlit("user");
    reveal_strlit("assistant");
    assert(role_of_name(rn) == Some(m.role));
    let r3 = quoted(m.text) + seq![']'] + rest;
    assert(r2 =~= seq![','] + r3);
    lemma_lit_roundtrip(seq![','], r3);
    let r4 = seq![']'] + rest;
    assert(r3 =~= quoted(m.text) + r4);
    lemma_quoted_roundtrip(m.text, r4);
    lemma_lit_roundtrip(seq![']'], rest);
    assert(p_msg(t) == Some((MessageView { role: m.role, text: m.text }, rest)));
    assert((MessageView { role: m.role, text: m.text }) == m);
}

/// Reading the tail of a written message list gives the messages back.
proof fn lemma_msgs_rest_roundtrip(ms: Seq<MessageView>, rest: Seq<char>)
    ensures
        p_msgs_rest(enc_msgs_rest(ms) + seq![']'] + rest) == Some((ms, rest)),
    decreases ms.len(),
{
    let t = enc_msgs_rest(ms) + seq![']'] + rest;
    if ms.len() == 0 {
        assert(t =~= seq![']'] + rest);
        assert(t[0] == ']');
        assert(t.drop_first() =~= rest);
    } else {
        let m = ms[0];
        let tail = ms.drop_first();
        let r1 = enc_msg(m) + enc_msgs_rest(tail) + seq![']'] + rest;
        assert(t =~= seq![','] + r1);
        assert(t[0] == ',');
        assert(t[0] != ']');
        assert(t.drop_first() =~= r1);
        let r2 = enc_msgs_rest(tail) + seq![']'] + rest;
        assert(r1 =~= enc_msg(m) + r2);
        lemma_msg_roundtrip(m, r2);
        assert(r2.len() < t.len());
        lemma_msgs_rest_roundtrip(tail, rest);
        assert(seq![m] + tail =~= ms);
    }
}

/// Reading a written message list gives the messages back.
proof fn lemma_msgs_roundtrip(ms: Seq<MessageView>, rest: Seq<char>)
    ensures
        p_msgs(enc_msgs(ms) + seq![']'] + rest) == Some((ms, rest)),
{
    let t = enc_msgs(ms) + seq![']'] + rest;
    if ms.len() == 0 {
        assert(t =~= seq![']'] + rest);
        assert(t[0] == ']');
        assert(t.drop_first() =~= rest);
    } else {
        let m = ms[0];
        let tail = ms.drop_first();
        let r1 = enc_msgs_rest(tail) + seq![']'] + rest;
        assert(t =~= enc_msg(m) + r1);
        lemma_msg_roundtrip(m, r1);
        assert(enc_msg(m)[0] == '[');
        assert(t[0] == '[');
        assert(t[0] != ']');
        assert(t.len() > 0);
        assert(r1.len() < t.len());
        lemma_msgs_rest_roundtrip(tail, rest);
        assert(seq![m] + tail =~= ms);
    }
}

/// Round trip of a saved session: reading back what was written yields
/// the same timestamp, model and message sequence.
#[verifier::rlimit(80)]
pub proof fn lemma_session_roundtrip(s: SessionView)
    ensures
        spec_parse_session(enc_session(s)) == Some(s),
{
    let t = enc_session(s);
    let l1 = "{\"timestamp\":"@;
    let l2 = ",\"model\":"@;
    let l3 = ",\"messages\":["@;
    let r1 = quoted(s.timestamp) + l2 + quoted(s.model) + l3 + enc_msgs(s.messages) + "]}"@;
    assert(t =~= l1 + r1);
    lemma_lit_roundtrip(l1, r1);
    let r2 = l2 + quoted(s.model) + l3 + enc_msgs(s.messages) + "]}"@;
    assert(r1 =~= quoted(s.timestamp) + r2);
    lemma_quoted_roundtrip(s.timestamp, r2);
    let r3 = quoted(s.model) + l3 + enc_msgs(s.messages) + "]}"@;
    assert(r2 =~= l2 + r3);
    lemma_lit_roundtrip(l2, r3);
    let r4 = l3 + enc_msgs(s.messages) + "]}"@;
    assert(r3 =~= quoted(s.model) + r4);
    lemma_quoted_roundtrip(s.model, r4);
    let r5 = enc_msgs(s.messages) + "]}"@;
    assert(r4 =~= l3 + r5);
    lemma_lit_roundtrip(l3, r5);
    reveal_strlit("]}");
    reveal_strlit("}");
    assert("]}"@ =~= seq![']'] + "}"@);
    assert(r5 =~= enc_msgs(s.messages) + seq![']'] + "}"@);
    lemma_msgs_roundtrip(s.messages, "}"@);
    assert(spec_parse_session(t) == Some(
        SessionView { timestamp: s.timestamp, model: s.model, messages: s.messages },
    ));
    assert((SessionView { timestamp: s.timestamp, model: s.model, messages: s.messages }) == s);
}

/// Every character of a thousandths numeral is a digit or the dot.
proof fn lemma_milli_chars_numeric(v: nat)
    ensures
        forall|i: int|
            0 <= i < milli_chars(v).len() ==> (char_digit(#[trigger] milli_chars(v)[i]) is Some
                || milli_chars(v)[i] == '.'),
{
    crate::numerals::lemma_dec_digits_are_digits(v / 1000);
    let d = dec_digits(v / 1000);
    let f = crate::numerals::frac_chars(v % 1000);
    let fr = v % 1000;
    assert forall|i: int|
        0 <= i < milli_chars(v).len() implies (char_digit(#[trigger] milli_chars(v)[i]) is Some
        || milli_chars(v)[i] == '.') by {
        if i < d.len() {
            assert(milli_chars(v)[i] == d[i]);
        } else {
            assert(milli_chars(v)[i] == f[i - d.len()]);
            crate::numerals::lemma_digit_char_roundtrip(fr / 100);
            crate::numerals::lemma_digit_char_roundtrip((fr / 10) % 10);
            crate::numerals::lemma_digit_char_roundtrip(fr % 10);
        }
    }
}

/// A numeral followed by something else spans exactly the numeral.
proof fn lemma_num_span(u: Seq<char>, s: Seq<char>)
    requires
        forall|i: int| 0 <= i < u.len() ==> (char_digit(#[trigger] u[i]) is Some || u[i] == '.'),
        s.len() > 0,
        char_digit(s[0]) is None,
        s[0] != '.',
    ensures
        num_span_len(u + s) == u.len(),
    decreases u.len(),
{
    let t = u + s;
    if u.len() == 0 {
        assert(t =~= s);
    } else {
        assert(t[0] == u[0]);
        assert(char_digit(t[0]) is Some || t[0] == '.');
        assert(t.drop_first() =~= u.drop_first() + s);
        assert(forall|i: int|
            0 <= i < u.drop_first().len() ==> u.drop_first()[i] == u[i + 1]);
        lemma_num_span(u.drop_first(), s);
    }
}

/// Reading a written thousandths numeral gives the value back.
proof fn lemma_p_milli_roundtrip(v: nat, rest: Seq<char>)
    requires
        rest.len() > 0,
        char_digit(rest[0]) is None,
        rest[0] != '.',
    ensures
        p_milli(milli_chars(v) + rest) == Some((v as int, rest)),
{
    let t = milli_chars(v) + rest;
    lemma_milli_chars_numeric(v);
    lemma_num_span(milli_chars(v), rest);
    assert(milli_chars(v).len() >= 1) by {
        crate::numerals::lemma_dec_digits_are_digits(v / 1000);
    }
    assert(t.take(milli_chars(v).len() as int) =~= milli_chars(v));
    assert(t.skip(milli_chars(v).len() as int) =~= rest);
    crate::numerals::lemma_milli_roundtrip(v);
}

/// Reading a written integer numeral gives the value back.
proof fn lemma_p_u64_roundtrip(v: nat, rest: Seq<char>)
    requires
        rest.len() > 0,
        char_digit(rest[0]) is None,
        rest[0] != '.',
    ensures
        p_u64(dec_digits(v) + rest) == Some((v, rest)),
{
    let t = dec_digits(v) + rest;
    crate::numerals::lemma_dec_digits_are_digits(v);
    lemma_num_span(dec_digits(v), rest);
    assert(t.take(dec_digits(v).len() as int) =~= dec_digits(v));
    assert(t.skip(dec_digits(v).len() as int) =~= rest);
    crate::numerals::lemma_parse_dec_digits(v);
}

/// Round trip of a well-formed configuration: reading back what was
/// written yields the same stored values.
/// Round trip of a well-formed configuration: reading back what was
/// written yields the same stored values.
#[verifier::rlimit(100)]
pub proof fn lemma_config_roundtrip(c: ConfigView)
    requires
        config_wf(c),
    ensures
        spec_parse_config(enc_config(c)) == Some(c),
{
    let t = enc_config(c);
    let l1 = "{\"temperature\":"@;
    let l2 = ",\"top_p\":"@;
    let l3 = ",\"top_k\":"@;
    let l4 = ",\"repeat_penalty\":"@;
    let l5 = ",\"num_ctx\":"@;
    let l6 = ",\"system_prompt\":"@;
    let b = "}"@;
    let mt = milli_chars(c.temperature as nat);
    let mp = milli_chars(c.top_p as nat);
    let dk = dec_digits(c.top_k as nat);
    let mr = milli_chars(c.repeat_penalty as nat);
    let dc = dec_digits(c.num_ctx as nat);
    let q = quoted(c.system_prompt);
    reveal_strlit(",\"top_p\":");
    reveal_strlit(",\"top_k\":");
    reveal_strlit(",\"repeat_penalty\":");
    reveal_strlit(",\"num_ctx\":");
    reveal_strlit(",\"system_prompt\":");
    reveal_strlit("}");
    let r1 = mt + (l2 + (mp + (l3 + (dk + (l4 + (mr + (l5 + (dc + (l6 + (q + b))))))))));
    assert(t =~= l1 + r1);
    lemma_lit_roundtrip(l1, r1);
    let r2 = l2 + (mp + (l3 + (dk + (l4 + (mr + (l5 + (dc + (l6 + (q + b)))))))));
    assert(r2[0] == ',' && char_digit(r2[0]) is None && r2[0] != '.');
    lemma_p_milli_roundtrip(c.temperature as nat, r2);
    assert(r1 == mt + r2);
    let r3 = mp + (l3 + (dk + (l4 + (mr + (l5 + (dc + (l6 + (q + b))))))));
    lemma_lit_roundtrip(l2, r3);
    let r4 = l3 + (dk + (l4 + (mr + (l5 + (dc + (l6 + (q + b)))))));
    assert(r4[0] == ',' && char_digit(r4[0]) is None && r4[0] != '.');
    lemma_p_milli_roundtrip(c.top_p as nat, r4);
    assert(r3 == mp + r4);
    let r5 = dk + (l4 + (mr + (l5 + (dc + (l6 + (q + b))))));
    lemma_lit_roundtrip(l3, r5);
    let r6 = l4 + (mr + (l5 + (dc + (l6 + (q + b)))));
    assert(r6[0] == ',' && char_digit(r6[0]) is None && r6[0] != '.');
    lemma_p_u64_roundtrip(c.top_k as nat, r6);
    assert(r5 == dk + r6);
    let r7 = mr + (l5 + (dc + (l6 + (q + b))));
    lemma_lit_roundtrip(l4, r7);
    let r8 = l5 + (dc + (l6 + (q + b)));
    assert(r8[0] == ',' && char_digit(r8[0]) is None && r8[0] != '.');
    lemma_p_milli_roundtrip(c.repeat_penalty as nat, r8);
    assert(r7 == mr + r8);
    let r9 = dc + (l6 + (q + b));
    lemma_lit_roundtrip(l5, r9);
    let r10 = l6 + (q + b);
    assert(r10[0] == ',' && char_digit(r10[0]) is None && r10[0] != '.');
    lemma_p_u64_roundtrip(c.num_ctx as nat, r10);
    assert(r9 == dc + r10);
    let r11 = q + b;
    lemma_lit_roundtrip(l6, r11);
    lemma_quoted_roundtrip(c.system_prompt, b);
    assert(spec_parse_config(t) == Some(
        clamped_config(
            c.temperature as int,
            c.top_p as int,
            c.top_k as nat,
            c.repeat_penalty as int,
            c.num_ctx as nat,
            c.system_prompt,
        ),
    ));
    assert(clamped_config(
        c.temperature as int,
        c.top_p as int,
        c.top_k as nat,
        c.repeat_penalty as int,
        c.num_ctx as nat,
        c.system_prompt,
    ) == c);
}

} // verus!
