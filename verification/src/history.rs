//! Saved conversations.
//!
//! A saved session snapshots the conversation and the model it was held
//! with, stamped with the wall-clock time it was written.  The browser
//! shows sessions newest first, ordered by the timestamp text, whose
//! fixed `YYYY-MM-DD HH:MM:SS` shape makes the lexicographic order the
//! chronological one.

use vstd::prelude::*;

use crate::numerals::{dec_digits, digit_char, push_dec_digits};
use crate::text::{chars_lt, chars_to_string, lemma_lex_total, lemma_lex_trans, lex_le, lex_lt,
    str_to_chars};

verus! {

use vstd::multiset::Multiset;

/// Who said a message: the person at the keyboard or the model.
#[derive(Clone, Copy, PartialEq, Eq, Structural, Debug)]
pub enum Role {
    User,
    Assistant,
}

/// One turn of the conversation.
pub struct ChatMessage {
    pub role: Role,
    pub text: String,
}

/// The mathematical content of a [`ChatMessage`].
pub struct MessageView {
    pub role: Role,
    pub text: Seq<char>,
}

impl View for ChatMessage {
    type V = MessageView;

    open spec fn view(&self) -> MessageView {
        MessageView { role: self.role, text: self.text@ }
    }
}

impl Clone for ChatMessage {
    fn clone(&self) -> (r: Self)
        ensures
            r@ == self@,
    {
        ChatMessage { role: self.role, text: self.text.clone() }
    }
}

/// A conversation as written to storage: when it was saved, with which
/// model, and every message in display order.
pub struct ChatSession {
    pub timestamp: String,
    pub model: String,
    pub messages: Vec<ChatMessage>,
}

/// The mathematical content of a [`ChatSession`].
pub struct SessionView {
    pub timestamp: Seq<char>,
    pub model: Seq<char>,
    pub messages: Seq<MessageView>,
}

/// The views of a message list.
pub open spec fn messages_view(v: Seq<ChatMessage>) -> Seq<MessageView> {
    v.map_values(|m: ChatMessage| m@)
}

impl View for ChatSession {
    type V = SessionView;

    open spec fn view(&self) -> SessionView {
        SessionView {
            timestamp: self.timestamp@,
            model: self.model@,
            messages: messages_view(self.messages@),
        }
    }
}

/// Copies a message list.
pub fn clone_messages(v: &Vec<ChatMessage>) -> (r: Vec<ChatMessage>)
    ensures
        messages_view(r@) == messages_view(v@),
{
    let mut r: Vec<ChatMessage> = Vec::new();
    let mut i: usize = 0;
    proof {
        assert(messages_view(r@) =~= messages_view(v@).take(0));
    }
    while i < v.len()
        invariant
            i <= v@.len(),
            messages_view(r@) == messages_view(v@).take(i as int),
        decreases v@.len() - i,
    {
        let ghost r_prev = r@;
        let c = v[i].clone();
        proof {
            lemma_messages_view_push(r_prev, c);
        }
        r.push(c);
        proof {
            assert(messages_view(r@) == messages_view(r_prev).push(c@));
            assert(c@ == v@[i as int]@);
            assert(messages_view(v@)[i as int] == v@[i as int]@);
            assert(messages_view(r@) =~= messages_view(v@).take(i + 1 as int));
        }
        i = i + 1;
    }
    proof {
        assert(messages_view(v@).take(0) =~= Seq::<MessageView>::empty());
        assert(messages_view(v@).take(v@.len() as int) =~= messages_view(v@));
    }
    r
}

/// Mapping a view over a pushed message pushes the view.
pub proof fn lemma_messages_view_push(s: Seq<ChatMessage>, x: ChatMessage)
    ensures
        messages_view(s.push(x)) =~= messages_view(s).push(x@),
{
}

/// Mapping a view over a shortened message list drops the same entry.
pub proof fn lemma_messages_view_remove(s: Seq<ChatMessage>, i: int)
    requires
        0 <= i < s.len(),
    ensures
        messages_view(s.remove(i)) =~= messages_view(s).remove(i),
{
}

/// Mapping a view over an extended message list inserts the view.
pub proof fn lemma_messages_view_insert(s: Seq<ChatMessage>, i: int, x: ChatMessage)
    requires
        0 <= i <= s.len(),
    ensures
        messages_view(s.insert(i, x)) =~= messages_view(s).insert(i, x@),
{
}

impl Clone for ChatSession {
    fn clone(&self) -> (r: Self)
        ensures
            r@ == self@,
    {
        ChatSession {
            timestamp: self.timestamp.clone(),
            model: self.model.clone(),
            messages: clone_messages(&self.messages),
        }
    }
}

/// Two digits for `n < 100`: a leading zero under ten.
pub open spec fn pad2(n: nat) -> Seq<char> {
    if n < 10 {
        seq!['0', digit_char(n)]
    } else {
        dec_digits(n)
    }
}

/// The display timestamp `YYYY-MM-DD HH:MM:SS`.
pub open spec fn timestamp_chars(y: nat, mo: nat, d: nat, h: nat, mi: nat, s: nat) -> Seq<char> {
    dec_digits(y) + seq!['-'] + pad2(mo) + seq!['-'] + pad2(d) + seq![' '] + pad2(h) + seq![':']
        + pad2(mi) + seq![':'] + pad2(s)
}

/// The file-name timestamp `YYYYMMDD_HHMMSS`.
pub open spec fn compact_timestamp_chars(
    y: nat,
    mo: nat,
    d: nat,
    h: nat,
    mi: nat,
    s: nat,
) -> Seq<char> {
    dec_digits(y) + pad2(mo) + pad2(d) + seq!['_'] + pad2(h) + pad2(mi) + pad2(s)
}

/// Appends two digits for `n < 100`.
fn push_pad2(n: u64, out: &mut Vec<char>)
    requires
        n < 100,
    ensures
        final(out)@ == old(out)@ + pad2(n as nat),
{
    if n < 10 {
        out.push('0');
        crate::numerals::push_digit(n, out);
        proof {
            assert(final(out)@ =~= old(out)@ + pad2(n as nat));
        }
    } else {
        push_dec_digits(n, out);
    }
}

/// The display timestamp for the given wall-clock parts.
pub fn format_timestamp(y: u64, mo: u64, d: u64, h: u64, mi: u64, s: u64) -> (r: String)
    requires
        1000 <= y <= 9999,
        mo < 100,
        d < 100,
        h < 100,
        mi < 100,
        s < 100,
    ensures
        r@ == timestamp_chars(y as nat, mo as nat, d as nat, h as nat, mi as nat, s as nat),
{
    let mut out: Vec<char> = Vec::new();
    push_dec_digits(y, &mut out);
    out.push('-');
    push_pad2(mo, &mut out);
    out.push('-');
    push_pad2(d, &mut out);
    out.push(' ');
    push_pad2(h, &mut out);
    out.push(':');
    push_pad2(mi, &mut out);
    out.push(':');
    push_pad2(s, &mut out);
    proof {
        assert(out@ =~= timestamp_chars(y as nat, mo as nat, d as nat, h as nat, mi as nat,
            s as nat));
    }
    chars_to_string(&out)
}

/// The file-name timestamp for the given wall-clock parts.
pub fn format_compact_timestamp(y: u64, mo: u64, d: u64, h: u64, mi: u64, s: u64) -> (r: String)
    requires
        1000 <= y <= 9999,
        mo < 100,
        d < 100,
        h < 100,
        mi < 100,
        s < 100,
    ensures
        r@ == compact_timestamp_chars(y as nat, mo as nat, d as nat, h as nat, mi as nat, s as nat),
{
    let mut out: Vec<char> = Vec::new();
    push_dec_digits(y, &mut out);
    push_pad2(mo, &mut out);
    push_pad2(d, &mut out);
    out.push('_');
    push_pad2(h, &mut out);
    push_pad2(mi, &mut out);
    push_pad2(s, &mut out);
    proof {
        assert(out@ =~= compact_timestamp_chars(y as nat, mo as nat, d as nat, h as nat, mi as nat,
            s as nat));
    }
    chars_to_string(&out)
}

/// The views of a session list.
pub open spec fn sessions_view(v: Seq<ChatSession>) -> Seq<SessionView> {
    v.map_values(|s: ChatSession| s@)
}

/// Newest first: timestamps never grow along the list.
pub open spec fn sorted_newest_first(s: Seq<SessionView>) -> bool {
    forall|i: int, j: int|
        0 <= i < j < s.len() ==> lex_le(#[trigger] s[j].timestamp, #[trigger] s[i].timestamp)
}

/// Compares two timestamps.
fn str_lt(a: &str, b: &str) -> (r: bool)
    ensures
        r == lex_lt(a@, b@),
{
    let av = str_to_chars(a);
    let bv = str_to_chars(b);
    chars_lt(&av, &bv)
}

/// Mapping a view over a pushed element pushes the view.
proof fn lemma_sessions_view_push(s: Seq<ChatSession>, x: ChatSession)
    ensures
        sessions_view(s.push(x)) =~= sessions_view(s).push(x@),
{
}

/// Mapping a view over a shortened list shortens the mapped list.
proof fn lemma_sessions_view_drop_last(s: Seq<ChatSession>)
    requires
        s.len() > 0,
    ensures
        sessions_view(s.drop_last()) =~= sessions_view(s).drop_last(),
{
}

/// Places `s` into the list so that newest-first order is kept.
fn insert_newest_first(out: &mut Vec<ChatSession>, s: ChatSession)
    requires
        sorted_newest_first(sessions_view(old(out)@)),
    ensures
        sorted_newest_first(sessions_view(final(out)@)),
        sessions_view(final(out)@).to_multiset() == sessions_view(old(out)@).to_multiset().insert(
            s@,
        ),
{
    let ghost m0 = sessions_view(old(out)@).to_multiset();
    let ghost sview = s@;
    let mut tmp: Vec<ChatSession> = Vec::new();
    proof {
        lemma_empty_views_multiset(tmp@);
        assert(sessions_view(out@).to_multiset().add(Multiset::<SessionView>::empty())
            =~= sessions_view(out@).to_multiset());
    }
    loop
        invariant
            sorted_newest_first(sessions_view(out@)),
            tmp_ascending(sessions_view(tmp@)),
            forall|i: int|
                0 <= i < sessions_view(tmp@).len() ==> lex_lt(
                    #[trigger] sessions_view(tmp@)[i].timestamp,
                    sview.timestamp,
                ),
            all_le(sessions_view(tmp@), sessions_view(out@)),
            sessions_view(out@).to_multiset().add(sessions_view(tmp@).to_multiset()) == m0,
            sview == s@,
        ensures
            sorted_newest_first(sessions_view(out@)),
            tmp_ascending(sessions_view(tmp@)),
            forall|i: int|
                0 <= i < sessions_view(tmp@).len() ==> lex_lt(
                    #[trigger] sessions_view(tmp@)[i].timestamp,
                    sview.timestamp,
                ),
            all_le(sessions_view(tmp@), sessions_view(out@)),
            sessions_view(out@).to_multiset().add(sessions_view(tmp@).to_multiset()) == m0,
            forall|i: int|
                0 <= i < sessions_view(out@).len() ==> lex_le(
                    sview.timestamp,
                    #[trigger] sessions_view(out@)[i].timestamp,
                ),
        decreases out@.len(),
    {
        if out.len() == 0 {
            break ;
        }
        let go = str_lt(out[out.len() - 1].timestamp.as_str(), s.timestamp.as_str());
        if !go {
            proof {
                let ov = sessions_view(out@);
                let last = ov[ov.len() - 1];
                lemma_lex_total(last.timestamp, sview.timestamp);
                assert forall|i: int| 0 <= i < ov.len() implies lex_le(
                    sview.timestamp,
                    #[trigger] ov[i].timestamp,
                ) by {
                    if i < ov.len() - 1 {
                        assert(lex_le(last.timestamp, ov[i].timestamp));
                        lemma_lex_trans(sview.timestamp, last.timestamp, ov[i].timestamp);
                    }
                }
            }
            break ;
        }
        let ghost out_prev = out@;
        let ghost tmp_prev = tmp@;
        let e = out.pop().unwrap();
        let ghost ev = e@;
        proof {
            assert(out_prev =~= out@.push(e));
            lemma_sessions_view_push(out@, e);
            lemma_sessions_view_drop_last(out_prev);
            assert(sessions_view(out@) =~= sessions_view(out_prev).drop_last());
            assert(sessions_view(out_prev) == sessions_view(out@).push(ev));
            lemma_push_multiset(sessions_view(out@), ev);
            lemma_sessions_view_push(tmp_prev, e);
        }
        tmp.push(e);
        proof {
            let opv = sessions_view(out_prev);
            let ocv = sessions_view(out@);
            let tpv = sessions_view(tmp_prev);
            let tcv = sessions_view(tmp@);
            assert(tcv == tpv.push(ev));
            lemma_push_multiset(tpv, ev);
            assert(ocv.to_multiset().add(tcv.to_multiset()) =~= m0);
            assert(opv[opv.len() - 1] == ev);
            assert(forall|i: int| 0 <= i < ocv.len() ==> ocv[i] == opv[i]);
            // the popped element is the smallest of what the list held
            assert forall|i: int, j: int|
                0 <= i < tcv.len() && 0 <= j < i implies lex_le(
                #[trigger] tcv[j].timestamp,
                #[trigger] tcv[i].timestamp,
            ) by {
                if i < tpv.len() {
                    assert(lex_le(tpv[j].timestamp, tpv[i].timestamp));
                } else {
                    assert(tcv[i] == ev);
                    assert(lex_le(tpv[j].timestamp, opv[opv.len() - 1].timestamp));
                }
            }
            assert forall|i: int|
                0 <= i < tcv.len() implies lex_lt(#[trigger] tcv[i].timestamp, sview.timestamp) by {
                if i < tpv.len() {
                    assert(lex_lt(tpv[i].timestamp, sview.timestamp));
                } else {
                    assert(tcv[i] == ev);
                }
            }
            assert forall|i: int, j: int|
                0 <= i < ocv.len() && 0 <= j < tcv.len() implies lex_le(
                #[trigger] tcv[j].timestamp,
                #[trigger] ocv[i].timestamp,
            ) by {
                if j < tpv.len() {
                    assert(lex_le(tpv[j].timestamp, opv[i].timestamp));
                } else {
                    assert(tcv[j] == ev);
                    assert(lex_le(opv[opv.len() - 1].timestamp, opv[i].timestamp));
                }
            }
        }
    }
    let ghost out_mid = out@;
    let ghost out_before = sessions_view(out@);
    proof {
        lemma_sessions_view_push(out_mid, s);
        lemma_push_multiset(out_before, sview);
    }
    out.push(s);
    let ghost m1 = m0.insert(sview);
    proof {
        assert(sessions_view(out@) == out_before.push(sview));
        assert(sessions_view(out@).to_multiset().add(sessions_view(tmp@).to_multiset()) =~= m1);
        let ov = sessions_view(out@);
        let tv = sessions_view(tmp@);
        assert(forall|i: int| 0 <= i < out_before.len() ==> ov[i] == out_before[i]);
        assert(ov[ov.len() - 1] == sview);
        assert forall|i: int, j: int| 0 <= i < j < ov.len() implies lex_le(
            #[trigger] ov[j].timestamp,
            #[trigger] ov[i].timestamp,
        ) by {
            if j < ov.len() - 1 {
                assert(lex_le(out_before[j].timestamp, out_before[i].timestamp));
            } else {
                assert(lex_le(sview.timestamp, out_before[i].timestamp));
            }
        }
        assert forall|i: int, j: int|
            0 <= i < ov.len() && 0 <= j < tv.len() implies lex_le(
            #[trigger] tv[j].timestamp,
            #[trigger] ov[i].timestamp,
        ) by {
            if i < ov.len() - 1 {
                assert(lex_le(tv[j].timestamp, out_before[i].timestamp));
            } else {
                assert(lex_lt(tv[j].timestamp, sview.timestamp));
            }
        }
    }
    loop
        invariant
            sessions_view(out@).len() > 0,
            sorted_newest_first(sessions_view(out@)),
            tmp_ascending(sessions_view(tmp@)),
            all_le(sessions_view(tmp@), sessions_view(out@)),
            sessions_view(out@).to_multiset().add(sessions_view(tmp@).to_multiset()) == m1,
        ensures
            tmp@.len() == 0,
            sorted_newest_first(sessions_view(out@)),
            sessions_view(out@).to_multiset().add(sessions_view(tmp@).to_multiset()) == m1,
        decreases tmp@.len(),
    {
        if tmp.len() == 0 {
            break ;
        }
        let ghost tmp_prev = tmp@;
        let e = tmp.pop().unwrap();
        let ghost ev = e@;
        let ghost out_prev = out@;
        proof {
            assert(tmp_prev =~= tmp@.push(e));
            lemma_sessions_view_push(tmp@, e);
            lemma_sessions_view_drop_last(tmp_prev);
            assert(sessions_view(tmp@) =~= sessions_view(tmp_prev).drop_last());
            assert(sessions_view(tmp_prev) == sessions_view(tmp@).push(ev));
            lemma_push_multiset(sessions_view(tmp@), ev);
            lemma_sessions_view_push(out_prev, e);
        }
        out.push(e);
        proof {
            let opv = sessions_view(out_prev);
            let ocv = sessions_view(out@);
            let tpv = sessions_view(tmp_prev);
            let tcv = sessions_view(tmp@);
            assert(ocv == opv.push(ev));
            lemma_push_multiset(opv, ev);
            assert(ocv.to_multiset().add(tcv.to_multiset()) =~= m1);
            assert(tpv[tpv.len() - 1] == ev);
            assert(forall|i: int| 0 <= i < tcv.len() ==> tcv[i] == tpv[i]);
            assert(forall|i: int| 0 <= i < opv.len() ==> ocv[i] == opv[i]);
            assert(ocv[ocv.len() - 1] == ev);
            assert forall|i: int, j: int| 0 <= i < j < ocv.len() implies lex_le(
                #[trigger] ocv[j].timestamp,
                #[trigger] ocv[i].timestamp,
            ) by {
                if j < ocv.len() - 1 {
                    assert(lex_le(opv[j].timestamp, opv[i].timestamp));
                } else {
                    assert(ocv[j] == ev);
                    assert(lex_le(tpv[tpv.len() - 1].timestamp, opv[i].timestamp));
                }
            }
            assert forall|i: int, j: int|
                0 <= i < ocv.len() && 0 <= j < tcv.len() implies lex_le(
                #[trigger] tcv[j].timestamp,
                #[trigger] ocv[i].timestamp,
            ) by {
                assert(tcv[j] == tpv[j]);
                if i < ocv.len() - 1 {
                    assert(lex_le(tpv[j].timestamp, opv[i].timestamp));
                } else {
                    assert(ocv[i] == ev);
                    assert(lex_le(tpv[j].timestamp, tpv[tpv.len() - 1].timestamp));
                }
            }
        }
    }
    proof {
        lemma_empty_views_multiset(tmp@);
        assert(sessions_view(out@).to_multiset().add(Multiset::<SessionView>::empty())
            =~= sessions_view(out@).to_multiset());
    }
}

/// Each timestamp of `a` is at or below each timestamp of `b`.
pub open spec fn all_le(a: Seq<SessionView>, b: Seq<SessionView>) -> bool {
    forall|i: int, j: int|
        0 <= i < b.len() && 0 <= j < a.len() ==> lex_le(
            #[trigger] a[j].timestamp,
            #[trigger] b[i].timestamp,
        )
}

/// Timestamps never shrink along the list (oldest first).
pub open spec fn tmp_ascending(a: Seq<SessionView>) -> bool {
    forall|i: int, j: int|
        0 <= i < a.len() && 0 <= j < i ==> lex_le(
            #[trigger] a[j].timestamp,
            #[trigger] a[i].timestamp,
        )
}

/// An empty list of sessions views to the empty multiset.
proof fn lemma_empty_views_multiset(s: Seq<ChatSession>)
    requires
        s.len() == 0,
    ensures
        sessions_view(s).to_multiset() == Multiset::<SessionView>::empty(),
{
    broadcast use vstd::seq_lib::group_to_multiset_ensures;

    let sv = sessions_view(s);
    assert(sv.len() == 0);
    assert forall|x: SessionView| #[trigger]
        sv.to_multiset().count(x) == Multiset::<SessionView>::empty().count(x) by {
        assert(!sv.contains(x));
        assert(sv.to_multiset().count(x) == 0);
    }
    assert(sv.to_multiset() =~= Multiset::<SessionView>::empty());
}

/// Pushing an element inserts its view into the multiset of views.
proof fn lemma_push_multiset(s: Seq<SessionView>, x: SessionView)
    ensures
        s.push(x).to_multiset() == s.to_multiset().insert(x),
{
    broadcast use vstd::seq_lib::group_to_multiset_ensures;

    assert(s.push(x).to_multiset() =~= s.to_multiset().insert(x));
}

/// The list reordered newest first; nothing is added or dropped.
pub fn sort_sessions_newest_first(v: Vec<ChatSession>) -> (r: Vec<ChatSession>)
    ensures
        sorted_newest_first(sessions_view(r@)),
        sessions_view(r@).to_multiset() == sessions_view(v@).to_multiset(),
{
    let ghost m0 = sessions_view(v@).to_multiset();
    let mut rest = v;
    let mut out: Vec<ChatSession> = Vec::new();
    proof {
        lemma_empty_views_multiset(out@);
        assert(Multiset::<SessionView>::empty().add(sessions_view(rest@).to_multiset())
            =~= sessions_view(rest@).to_multiset());
    }
    loop
        invariant
            sorted_newest_first(sessions_view(out@)),
            sessions_view(out@).to_multiset().add(sessions_view(rest@).to_multiset()) == m0,
        ensures
            rest@.len() == 0,
            sorted_newest_first(sessions_view(out@)),
            sessions_view(out@).to_multiset().add(sessions_view(rest@).to_multiset()) == m0,
        decreases rest@.len(),
    {
        if rest.len() == 0 {
            break ;
        }
        let ghost rest_prev = rest@;
        let e = rest.pop().unwrap();
        let ghost ev = e@;
        proof {
            assert(rest_prev =~= rest@.push(e));
            lemma_sessions_view_push(rest@, e);
            assert(sessions_view(rest_prev) == sessions_view(rest@).push(ev));
            lemma_push_multiset(sessions_view(rest@), ev);
        }
        insert_newest_first(&mut out, e);
        proof {
            assert(sessions_view(out@).to_multiset().add(sessions_view(rest@).to_multiset())
                =~= m0);
        }
    }
    proof {
        lemma_empty_views_multiset(rest@);
        assert(sessions_view(out@).to_multiset().add(Multiset::<SessionView>::empty())
            =~= sessions_view(out@).to_multiset());
    }
    out
}

} // verus!
