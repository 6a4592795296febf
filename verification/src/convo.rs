//! The conversation store: an ordered, append-only message log whose
//! first turn is the fixed system instruction.  The module carries the
//! JSON codec for the persisted history and for the decision-service
//! request body, and proves that persisting and reloading the store
//! yields the same ordered turn sequence.

use vstd::prelude::*;
use crate::json::jstr;
use crate::json::sp_string;
use crate::json::sp_ws;
use crate::json::write_jstr;
use crate::json::lemma_str_round;
use crate::text::chars_of;
use crate::text::string_from_chars;
use crate::types::ChatMessage;
use crate::types::MessageView;
use crate::types::PageState;
use crate::types::PageStateView;
use crate::types::ExtractionView;

verus! {

// ===== the message and conversation wire form =====

pub open spec fn role_key() -> Seq<char> {
    seq!['r', 'o', 'l', 'e']
}

pub open spec fn content_key() -> Seq<char> {
    seq!['c', 'o', 'n', 't', 'e', 'n', 't']
}

/// The encoded form of one message: an object holding its role and content.
pub open spec fn enc_msg(m: MessageView) -> Seq<char> {
    seq!['{'] + jstr(role_key()) + seq![':'] + jstr(m.role) + seq![','] + jstr(content_key())
        + seq![':'] + jstr(m.content) + seq!['}']
}

/// The encoded continuation of a message list from index `i` on: a comma
/// before each further message.
pub open spec fn enc_msgs_rest(ms: Seq<MessageView>, i: int) -> Seq<char>
    decreases ms.len() - i,
{
    if i < 0 || i >= ms.len() {
        Seq::empty()
    } else {
        seq![','] + enc_msg(ms[i]) + enc_msgs_rest(ms, i + 1)
    }
}

/// The encoded form of a whole conversation: the ordered array of its
/// messages.
pub open spec fn enc_conv(ms: Seq<MessageView>) -> Seq<char> {
    if ms.len() == 0 {
        seq!['[', ']']
    } else {
        seq!['['] + enc_msg(ms[0]) + enc_msgs_rest(ms, 1) + seq![']']
    }
}

/// Read one message object at `i`: both field orders are accepted.
pub open spec fn sp_msg(s: Seq<char>, i: int) -> Option<(MessageView, int)> {
    if 0 <= i && i < s.len() && s[i] == '{' {
        let j0 = sp_ws(s, i + 1);
        match sp_string(s, j0) {
            Some((k1, j1)) => {
                let j2 = sp_ws(s, j1);
                if j2 < s.len() && s[j2] == ':' {
                    let j3 = sp_ws(s, j2 + 1);
                    match sp_string(s, j3) {
                        Some((v1, j4)) => {
                            let j5 = sp_ws(s, j4);
                            if j5 < s.len() && s[j5] == ',' {
                                let j6 = sp_ws(s, j5 + 1);
                                match sp_string(s, j6) {
                                    Some((k2, j7)) => {
                                        let j8 = sp_ws(s, j7);
                                        if j8 < s.len() && s[j8] == ':' {
                                            let j9 = sp_ws(s, j8 + 1);
                                            match sp_string(s, j9) {
                                                Some((v2, j10)) => {
                                                    let j11 = sp_ws(s, j10);
                                                    if j11 < s.len() && s[j11] == '}' {
                                                        if k1 == role_key() && k2
                                                            == content_key() {
                                                            Some(
                                                                (
                                                                    MessageView {
                                                                        role: v1,
                                                                        content: v2,
                                                                    },
                                                                    j11 + 1,
                                                                ),
                                                            )
                                                        } else if k1 == content_key() && k2
                                                            == role_key() {
                                                            Some(
                                                                (
                                                                    MessageView {
                                                                        role: v2,
                                                                        content: v1,
                                                                    },
                                                                    j11 + 1,
                                                                ),
                                                            )
                                                        } else {
                                                            None
                                                        }
                                                    } else {
                                                        None
                                                    }
                                                },
                                                None => None,
                                            }
                                        } else {
                                            None
                                        }
                                    },
                                    None => None,
                                }
                            } else {
                                None
                            }
                        },
                        None => None,
                    }
                } else {
                    None
                }
            },
            None => None,
        }
    } else {
        None
    }
}

/// Read a non-empty comma-separated message list starting at the first
/// object's brace; stops before the closing bracket.
pub open spec fn sp_msgs(s: Seq<char>, i: int) -> Option<(Seq<MessageView>, int)>
    decreases s.len() - i,
{
    match sp_msg(s, i) {
        None => None,
        Some((m, j)) => {
            let k = sp_ws(s, j);
            if k < s.len() && s[k] == ',' {
                let n = sp_ws(s, k + 1);
                if i < n && n <= s.len() {
                    match sp_msgs(s, n) {
                        Some((rest, e)) => Some((seq![m] + rest, e)),
                        None => None,
                    }
                } else {
                    None
                }
            } else {
                Some((seq![m], j))
            }
        },
    }
}

/// Read a whole persisted conversation: one array of message objects,
/// with nothing but whitespace around it.
pub open spec fn sp_conv(s: Seq<char>) -> Option<Seq<MessageView>> {
    let i = sp_ws(s, 0);
    if i < s.len() && s[i] == '[' {
        let j = sp_ws(s, i + 1);
        if j < s.len() && s[j] == ']' {
            if sp_ws(s, j + 1) == s.len() {
                Some(Seq::empty())
            } else {
                None
            }
        } else {
            match sp_msgs(s, j) {
                Some((ms, e)) => {
                    let f = sp_ws(s, e);
                    if f < s.len() && s[f] == ']' && sp_ws(s, f + 1) == s.len() {
                        Some(ms)
                    } else {
                        None
                    }
                },
                None => None,
            }
        }
    } else {
        None
    }
}

/// The mathematical value of a message vector.
pub open spec fn msgs_view(v: Seq<ChatMessage>) -> Seq<MessageView> {
    Seq::new(v.len(), |i: int| v[i]@)
}

// ===== writers =====

fn key_chars_role() -> (r: Vec<char>)
    ensures
        r@ == role_key(),
{
    let r = chars_of("role");
    proof {
        reveal_strlit("role");
        assert(r@ =~= role_key());
    }
    r
}

fn key_chars_content() -> (r: Vec<char>)
    ensures
        r@ == content_key(),
{
    let r = chars_of("content");
    proof {
        reveal_strlit("content");
        assert(r@ =~= content_key());
    }
    r
}

/// Append the encoded form of one message.
pub fn write_msg(out: &mut Vec<char>, m: &ChatMessage)
    ensures
        final(out)@ == old(out)@ + enc_msg(m@),
{
    out.push('{');
    let rk = key_chars_role();
    write_jstr(out, &rk);
    out.push(':');
    let rv = chars_of(m.role.as_str());
    write_jstr(out, &rv);
    out.push(',');
    let ck = key_chars_content();
    write_jstr(out, &ck);
    out.push(':');
    let cv = chars_of(m.content.as_str());
    write_jstr(out, &cv);
    out.push('}');
    assert(final(out)@ =~= old(out)@ + enc_msg(m@));
}

/// Append the encoded form of a whole conversation.
pub fn write_conv(out: &mut Vec<char>, msgs: &Vec<ChatMessage>)
    ensures
        final(out)@ == old(out)@ + enc_conv(msgs_view(msgs@)),
{
    let ghost ms = msgs_view(msgs@);
    out.push('[');
    if msgs.len() > 0 {
        write_msg(out, &msgs[0]);
        assert(ms[0] == msgs@[0]@);
        assert(out@ + enc_msgs_rest(ms, 1) + seq![']'] =~= old(out)@ + enc_conv(ms));
        let mut i: usize = 1;
        while i < msgs.len()
            invariant
                1 <= i <= msgs@.len(),
                ms == msgs_view(msgs@),
                out@ + enc_msgs_rest(ms, i as int) + seq![']'] == old(out)@ + enc_conv(ms),
            decreases msgs@.len() - i,
        {
            out.push(',');
            write_msg(out, &msgs[i]);
            assert(ms[i as int] == msgs@[i as int]@);
            assert(out@ + enc_msgs_rest(ms, i as int + 1) + seq![']'] =~= old(out)@ + enc_conv(
                ms,
            ));
            i = i + 1;
        }
        assert(enc_msgs_rest(ms, msgs@.len() as int) =~= Seq::<char>::empty());
    }
    out.push(']');
    assert(final(out)@ =~= old(out)@ + enc_conv(ms));
}

// ===== readers =====

/// Character-wise equality of two vectors.
pub fn chars_eq(a: &Vec<char>, b: &Vec<char>) -> (r: bool)
    ensures
        r == (a@ == b@),
{
    if a.len() != b.len() {
        return false;
    }
    let mut i: usize = 0;
    while i < a.len()
        invariant
            a@.len() == b@.len(),
            i <= a@.len(),
            forall|k: int| 0 <= k < i ==> a@[k] == b@[k],
        decreases a@.len() - i,
    {
        if a[i] != b[i] {
            return false;
        }
        i = i + 1;
    }
    proof {
        assert(a@ =~= b@);
    }
    true
}

/// Read one message object; mirrors `sp_msg`.
fn p_msg(s: &Vec<char>, i: usize) -> (r: Option<(ChatMessage, usize)>)
    requires
        i <= s@.len(),
    ensures
        match r {
            Some((m, j)) => sp_msg(s@, i as int) == Some((m@, j as int)) && j <= s@.len(),
            None => sp_msg(s@, i as int) is None,
        },
{
    if !(i < s.len() && s[i] == '{') {
        return None;
    }
    let j0 = crate::json::p_ws(s, i + 1);
    match crate::json::p_string(s, j0) {
        None => None,
        Some((k1, j1)) => {
            let j2 = crate::json::p_ws(s, j1);
            if !(j2 < s.len() && s[j2] == ':') {
                return None;
            }
            let j3 = crate::json::p_ws(s, j2 + 1);
            match crate::json::p_string(s, j3) {
                None => None,
                Some((v1, j4)) => {
                    let j5 = crate::json::p_ws(s, j4);
                    if !(j5 < s.len() && s[j5] == ',') {
                        return None;
                    }
                    let j6 = crate::json::p_ws(s, j5 + 1);
                    match crate::json::p_string(s, j6) {
                        None => None,
                        Some((k2, j7)) => {
                            let j8 = crate::json::p_ws(s, j7);
                            if !(j8 < s.len() && s[j8] == ':') {
                                return None;
                            }
                            let j9 = crate::json::p_ws(s, j8 + 1);
                            match crate::json::p_string(s, j9) {
                                None => None,
                                Some((v2, j10)) => {
                                    let j11 = crate::json::p_ws(s, j10);
                                    if !(j11 < s.len() && s[j11] == '}') {
                                        return None;
                                    }
                                    let rk = key_chars_role();
                                    let ck = key_chars_content();
                                    if chars_eq(&k1, &rk) && chars_eq(&k2, &ck) {
                                        Some(
                                            (
                                                ChatMessage {
                                                    role: string_from_chars(&v1),
                                                    content: string_from_chars(&v2),
                                                },
                                                j11 + 1,
                                            ),
                                        )
                                    } else if chars_eq(&k1, &ck) && chars_eq(&k2, &rk) {
                                        Some(
                                            (
                                                ChatMessage {
                                                    role: string_from_chars(&v2),
                                                    content: string_from_chars(&v1),
                                                },
                                                j11 + 1,
                                            ),
                                        )
                                    } else {
                                        None
                                    }
                                },
                            }
                        },
                    }
                },
            }
        },
    }
}

/// Read a message list; mirrors `sp_msgs`.
fn p_msgs(s: &Vec<char>, i: usize) -> (r: Option<(Vec<ChatMessage>, usize)>)
    requires
        i <= s@.len(),
    ensures
        match r {
            Some((v, j)) => sp_msgs(s@, i as int) == Some((msgs_view(v@), j as int)) && j
                <= s@.len(),
            None => sp_msgs(s@, i as int) is None,
        },
    decreases s@.len() - i,
{
    match p_msg(s, i) {
        None => None,
        Some((m, j)) => {
            let k = crate::json::p_ws(s, j);
            if k < s.len() && s[k] == ',' {
                let n = crate::json::p_ws(s, k + 1);
                if i < n {
                    match p_msgs(s, n) {
                        Some((rest, e)) => {
                            let mut out = rest;
                            out.insert(0, m);
                            assert(msgs_view(out@) =~= seq![m@] + msgs_view(rest@));
                            Some((out, e))
                        },
                        None => None,
                    }
                } else {
                    None
                }
            } else {
                let mut out: Vec<ChatMessage> = Vec::new();
                out.push(m);
                assert(msgs_view(out@) =~= seq![m@]);
                Some((out, j))
            }
        },
    }
}

/// Read a whole persisted conversation; mirrors `sp_conv`.
pub fn parse_conv(s: &Vec<char>) -> (r: Option<Vec<ChatMessage>>)
    ensures
        match r {
            Some(v) => sp_conv(s@) == Some(msgs_view(v@)),
            None => sp_conv(s@) is None,
        },
{
    let i = crate::json::p_ws(s, 0);
    if !(i < s.len() && s[i] == '[') {
        return None;
    }
    let j = crate::json::p_ws(s, i + 1);
    if j < s.len() && s[j] == ']' {
        if crate::json::p_ws(s, j + 1) == s.len() {
            let out: Vec<ChatMessage> = Vec::new();
            assert(msgs_view(out@) =~= Seq::<MessageView>::empty());
            Some(out)
        } else {
            None
        }
    } else {
        match p_msgs(s, j) {
            Some((ms, e)) => {
                let f = crate::json::p_ws(s, e);
                if f < s.len() && s[f] == ']' && crate::json::p_ws(s, f + 1) == s.len() {
                    Some(ms)
                } else {
                    None
                }
            },
            None => None,
        }
    }
}

// ===== the round trip =====

proof fn lemma_ws_at(s: Seq<char>, i: int)
    requires
        0 <= i < s.len(),
        !crate::json::is_ws(s[i]),
    ensures
        sp_ws(s, i) == i,
{
}

/// Reading an encoded message yields that message, wherever it stands.
#[verifier::rlimit(100)]
#[verifier::spinoff_prover]
proof fn lemma_msg_round(m: MessageView, pre: Seq<char>, post: Seq<char>, s: Seq<char>)
    requires
        s == pre + enc_msg(m) + post,
    ensures
        sp_msg(s, pre.len() as int) == Some((m, pre.len() + enc_msg(m).len() as int)),
{
    let i = pre.len() as int;
    let ka = jstr(role_key());
    let va = jstr(m.role);
    let kb = jstr(content_key());
    let vb = jstr(m.content);
    assert(ka == seq!['"'] + crate::json::esc(role_key()) + seq!['"']);
    assert(va == seq!['"'] + crate::json::esc(m.role) + seq!['"']);
    assert(kb == seq!['"'] + crate::json::esc(content_key()) + seq!['"']);
    assert(vb == seq!['"'] + crate::json::esc(m.content) + seq!['"']);

    let a1 = pre + seq!['{'];
    let a2 = a1 + ka;
    let a3 = a2 + seq![':'];
    let a4 = a3 + va;
    let a5 = a4 + seq![','];
    let a6 = a5 + kb;
    let a7 = a6 + seq![':'];
    let a8 = a7 + vb;

    assert(s =~= a1 + ka + (seq![':'] + va + seq![','] + kb + seq![':'] + vb + seq!['}'] + post));
    assert(s =~= a3 + va + (seq![','] + kb + seq![':'] + vb + seq!['}'] + post));
    assert(s =~= a5 + kb + (seq![':'] + vb + seq!['}'] + post));
    assert(s =~= a7 + vb + (seq!['}'] + post));

    assert(s[i] == '{');
    assert(s[i + 1] == '"');
    lemma_ws_at(s, i + 1);
    lemma_str_round(role_key(), a1, seq![':'] + va + seq![','] + kb + seq![':'] + vb + seq!['}']
        + post, s);
    let j1 = a1.len() + ka.len() as int;
    assert(a2.len() == j1);
    assert(s[j1] == ':');
    lemma_ws_at(s, j1);
    assert(s[j1 + 1] == '"');
    lemma_ws_at(s, j1 + 1);
    assert(a3.len() == j1 + 1);
    lemma_str_round(m.role, a3, seq![','] + kb + seq![':'] + vb + seq!['}'] + post, s);
    let j4 = a3.len() + va.len() as int;
    assert(a4.len() == j4);
    assert(s[j4] == ',');
    lemma_ws_at(s, j4);
    assert(s[j4 + 1] == '"');
    lemma_ws_at(s, j4 + 1);
    assert(a5.len() == j4 + 1);
    lemma_str_round(content_key(), a5, seq![':'] + vb + seq!['}'] + post, s);
    let j7 = a5.len() + kb.len() as int;
    assert(a6.len() == j7);
    assert(s[j7] == ':');
    lemma_ws_at(s, j7);
    assert(s[j7 + 1] == '"');
    lemma_ws_at(s, j7 + 1);
    assert(a7.len() == j7 + 1);
    lemma_str_round(m.content, a7, seq!['}'] + post, s);
    let j10 = a7.len() + vb.len() as int;
    assert(a8.len() == j10);
    assert(s[j10] == '}');
    lemma_ws_at(s, j10);
    assert(role_key() != content_key()) by {
        assert(role_key().len() != content_key().len());
    }
    assert(sp_msg(s, i) == Some((m, j10 + 1)));
    assert(j10 + 1 == pre.len() + enc_msg(m).len() as int);
}

/// The encoded tail of a message list from `idx` on.
spec fn enc_from(ms: Seq<MessageView>, idx: int) -> Seq<char> {
    enc_msg(ms[idx]) + enc_msgs_rest(ms, idx + 1)
}

/// Reading the last encoded message of a list yields that message.
#[verifier::rlimit(100)]
#[verifier::spinoff_prover]
proof fn lemma_list_round_last(ms: Seq<MessageView>, idx: int, pre: Seq<char>, post: Seq<char>, s: Seq<char>)
    requires
        0 <= idx < ms.len(),
        idx + 1 == ms.len(),
        s == pre + enc_from(ms, idx) + seq![']'] + post,
    ensures
        sp_msgs(s, pre.len() as int) == Some(
            (ms.skip(idx), pre.len() + enc_from(ms, idx).len() as int),
        ),
{
    let i = pre.len() as int;
    let e = enc_msg(ms[idx]);
    assert(enc_msgs_rest(ms, idx + 1) =~= Seq::<char>::empty());
    assert(enc_from(ms, idx) =~= e);
    assert(s =~= pre + e + (seq![']'] + post));
    lemma_msg_round(ms[idx], pre, seq![']'] + post, s);
    let j = i + e.len() as int;
    assert(s[j] == ']');
    lemma_ws_at(s, j);
    assert(ms.skip(idx) =~= seq![ms[idx]]);
    assert(sp_msgs(s, i) == Some((seq![ms[idx]], j)));
}

/// One step of reading an encoded message list: the head message, the
/// comma, and the rest.
#[verifier::rlimit(100)]
#[verifier::spinoff_prover]
proof fn lemma_list_round_step(ms: Seq<MessageView>, idx: int, pre: Seq<char>, post: Seq<char>, s: Seq<char>)
    requires
        0 <= idx,
        idx + 1 < ms.len(),
        s == pre + enc_from(ms, idx) + seq![']'] + post,
        sp_msgs(s, pre.len() + enc_msg(ms[idx]).len() + 1int) == Some(
            (ms.skip(idx + 1), pre.len() + enc_from(ms, idx).len() as int),
        ),
    ensures
        sp_msgs(s, pre.len() as int) == Some(
            (ms.skip(idx), pre.len() + enc_from(ms, idx).len() as int),
        ),
{
    let i = pre.len() as int;
    let e = enc_msg(ms[idx]);
    let rest = enc_msgs_rest(ms, idx + 1);
    assert(rest == seq![','] + enc_msg(ms[idx + 1]) + enc_msgs_rest(ms, idx + 2));
    assert(s =~= pre + e + (seq![','] + enc_msg(ms[idx + 1]) + enc_msgs_rest(ms, idx + 2)
        + seq![']'] + post));
    lemma_msg_round(ms[idx], pre, seq![','] + enc_msg(ms[idx + 1]) + enc_msgs_rest(
        ms,
        idx + 2,
    ) + seq![']'] + post, s);
    let j = i + e.len() as int;
    assert(s[j] == ',');
    lemma_ws_at(s, j);
    assert(s[j + 1] == '{') by {
        assert(enc_msg(ms[idx + 1])[0] == '{');
    }
    lemma_ws_at(s, j + 1);
    assert(seq![ms[idx]] + ms.skip(idx + 1) =~= ms.skip(idx));
    assert(sp_msgs(s, i) == Some((ms.skip(idx), i + enc_from(ms, idx).len() as int)));
}

/// Reading an encoded message list yields the remaining messages.
proof fn lemma_list_round(ms: Seq<MessageView>, idx: int, pre: Seq<char>, post: Seq<char>, s: Seq<char>)
    requires
        0 <= idx < ms.len(),
        s == pre + enc_from(ms, idx) + seq![']'] + post,
    ensures
        sp_msgs(s, pre.len() as int) == Some(
            (ms.skip(idx), pre.len() + enc_from(ms, idx).len() as int),
        ),
    decreases ms.len() - idx,
{
    if idx + 1 == ms.len() {
        lemma_list_round_last(ms, idx, pre, post, s);
    } else {
        let e = enc_msg(ms[idx]);
        let pre2 = pre + e + seq![','];
        assert(enc_msgs_rest(ms, idx + 1) == seq![','] + enc_msg(ms[idx + 1]) + enc_msgs_rest(
            ms,
            idx + 2,
        ));
        assert(s =~= pre2 + enc_from(ms, idx + 1) + seq![']'] + post);
        lemma_list_round(ms, idx + 1, pre2, post, s);
        assert(pre2.len() + enc_from(ms, idx + 1).len() as int == pre.len() + enc_from(
            ms,
            idx,
        ).len() as int);
        assert(pre2.len() == pre.len() + enc_msg(ms[idx]).len() + 1int);
        lemma_list_round_step(ms, idx, pre, post, s);
    }
}

/// Law: persisting the conversation and reading it back yields the same
/// ordered turn sequence, for every conversation.
pub proof fn lemma_memory_round_trip(ms: Seq<MessageView>)
    ensures
        sp_conv(enc_conv(ms)) == Some(ms),
{
    let s = enc_conv(ms);
    if ms.len() == 0 {
        assert(s =~= seq!['[', ']']);
        assert(s[0] == '[');
        lemma_ws_at(s, 0);
        assert(s[1] == ']');
        lemma_ws_at(s, 1);
        assert(sp_ws(s, 2) == 2);
        assert(sp_conv(s) == Some(Seq::<MessageView>::empty()));
        assert(Seq::<MessageView>::empty() =~= ms);
    } else {
        let pre = seq!['['];
        assert(s =~= pre + enc_from(ms, 0) + seq![']'] + Seq::<char>::empty());
        assert(s[0] == '[');
        lemma_ws_at(s, 0);
        assert(s[1] == '{') by {
            assert(enc_msg(ms[0])[0] == '{');
            assert(enc_from(ms, 0)[0] == '{');
        }
        lemma_ws_at(s, 1);
        lemma_list_round(ms, 0, pre, Seq::<char>::empty(), s);
        assert(ms.skip(0) =~= ms);
        let e = 1 + enc_from(ms, 0).len() as int;
        assert(s[e] == ']');
        lemma_ws_at(s, e);
        assert(e + 1 == s.len());
        assert(sp_ws(s, e + 1) == e + 1);
        assert(sp_conv(s) == Some(ms));
    }
}

// ===== the store =====

/// A warning is raised, not an error, once the history grows past this
/// many turns.
pub const CONVERSATION_WARNING_THRESHOLD: usize = 20;

/// The fixed system instruction that always stands at turn 0: the rules
/// of the action protocol.
pub open spec fn spec_system_prompt() -> Seq<char> {
    "You are a browser automation agent. You control a real Chrome browser by issuing ONE step at a time as JSON.\n\nAvailable actions:\n- {\"action\":\"Navigate\",\"url\":\"https://...\"}\n- {\"action\":\"WaitFor\",\"selector\":\"[data-eid=\\\"[e0]\\\"]\",\"timeout_ms\":5000}\n- {\"action\":\"TypeInto\",\"selector\":\"[data-eid=\\\"[e0]\\\"]\",\"text\":\"search query\"}\n- {\"action\":\"Click\",\"selector\":\"[data-eid=\\\"[e0]\\\"]\"}\n- {\"action\":\"PressKey\",\"key\":\"Enter\"}\n- {\"action\":\"Extract\",\"selector\":\"body\",\"label\":\"main_content\"}\n- {\"action\":\"Screenshot\"}\n- {\"action\":\"NewTab\"}\n- {\"action\":\"Done\",\"summary\":\"Completed: found the answer is 42\"}\n\nRules:\n1. Return ONLY a single JSON object per response. No markdown, no explanation.\n2. Use the [eN] element IDs from the DOM snapshot to target elements. Use selector format: [data-eid=\"[eN]\"]\n3. After Navigate, the system will show you the new page DOM. Decide your next step based on what you see.\n4. Use TypeInto to fill inputs, then PressKey with \"Enter\" to submit. Or Click the submit button.\n5. When the user\'s task is accomplished, use Done with a summary of what was achieved.\n6. If you encounter an error, try an alternative approach. If stuck after 3 attempts, use Done to explain.\n7. Keep steps minimal. Do not over-navigate."@
}

/// The system instruction as a string.
pub fn system_prompt() -> (r: String)
    ensures
        r@ == spec_system_prompt(),
{
    let s: &str = "You are a browser automation agent. You control a real Chrome browser by issuing ONE step at a time as JSON.\n\nAvailable actions:\n- {\"action\":\"Navigate\",\"url\":\"https://...\"}\n- {\"action\":\"WaitFor\",\"selector\":\"[data-eid=\\\"[e0]\\\"]\",\"timeout_ms\":5000}\n- {\"action\":\"TypeInto\",\"selector\":\"[data-eid=\\\"[e0]\\\"]\",\"text\":\"search query\"}\n- {\"action\":\"Click\",\"selector\":\"[data-eid=\\\"[e0]\\\"]\"}\n- {\"action\":\"PressKey\",\"key\":\"Enter\"}\n- {\"action\":\"Extract\",\"selector\":\"body\",\"label\":\"main_content\"}\n- {\"action\":\"Screenshot\"}\n- {\"action\":\"NewTab\"}\n- {\"action\":\"Done\",\"summary\":\"Completed: found the answer is 42\"}\n\nRules:\n1. Return ONLY a single JSON object per response. No markdown, no explanation.\n2. Use the [eN] element IDs from the DOM snapshot to target elements. Use selector format: [data-eid=\"[eN]\"]\n3. After Navigate, the system will show you the new page DOM. Decide your next step based on what you see.\n4. Use TypeInto to fill inputs, then PressKey with \"Enter\" to submit. Or Click the submit button.\n5. When the user\'s task is accomplished, use Done with a summary of what was achieved.\n6. If you encounter an error, try an alternative approach. If stuck after 3 attempts, use Done to explain.\n7. Keep steps minimal. Do not over-navigate.";
    s.to_owned()
}

/// The user turn recorded for a freshly issued task.
pub open spec fn task_wrap(t: Seq<char>) -> Seq<char> {
    "Task: "@ + t + "\n\nThe browser is on the current page. What is your next step?"@
}

/// The text of the extractions from index `i` on, as recorded in an
/// observation turn.
pub open spec fn extr_text(es: Seq<ExtractionView>, i: int) -> Seq<char>
    decreases es.len() - i,
{
    if i < 0 || i >= es.len() {
        Seq::empty()
    } else {
        "\n\nExtracted ["@ + es[i].label + "]: "@ + es[i].content + extr_text(es, i + 1)
    }
}

/// The user turn recorded for one observation: page metadata, the
/// snapshot, the error of the last step if any, and the extractions.
pub open spec fn observation_text(p: PageStateView) -> Seq<char> {
    "Page URL: "@ + p.url + "\nTitle: "@ + p.title + "\n\nDOM:\n"@ + p.dom_snapshot + (match p
        .error {
        Some(e) => "\n\nERROR from last step: "@ + e,
        None => Seq::empty(),
    }) + extr_text(p.extracted, 0)
}

/// The request body sent to the decision service: the model name, the
/// full ordered conversation, and the fixed determinism-leaning
/// temperature.
pub open spec fn enc_request(model: Seq<char>, ms: Seq<MessageView>) -> Seq<char> {
    seq!['{'] + jstr("model"@) + seq![':'] + jstr(model) + seq![','] + jstr("messages"@)
        + seq![':'] + enc_conv(ms) + seq![','] + jstr("temperature"@) + seq![':'] + seq!['0', '.', '2']
        + seq!['}']
}

/// The conversation store: the ordered message log of one agent.  It is
/// append-only during a run; history from prior tasks is retained on
/// purpose, acting as long-term memory.
pub struct Brain {
    conversation: Vec<ChatMessage>,
}

impl View for Brain {
    type V = Seq<MessageView>;

    closed spec fn view(&self) -> Seq<MessageView> {
        msgs_view(self.conversation@)
    }
}

impl Brain {
    /// A fresh store: exactly the system instruction.
    pub fn new() -> (b: Brain)
        ensures
            b@ == seq![MessageView { role: "system"@, content: spec_system_prompt() }],
    {
        let mut conversation: Vec<ChatMessage> = Vec::new();
        conversation.push(ChatMessage { role: "system".to_owned(), content: system_prompt() });
        let b = Brain { conversation };
        proof {
            assert(b@ =~= seq![MessageView { role: "system"@, content: spec_system_prompt() }]);
        }
        b
    }

    pub fn turn_count(&self) -> (n: usize)
        ensures
            n == self@.len(),
    {
        self.conversation.len()
    }

    /// The turn at index `i`.
    pub fn turn(&self, i: usize) -> (m: &ChatMessage)
        requires
            i < self@.len(),
        ensures
            m@ == self@[i as int],
    {
        &self.conversation[i]
    }

    /// Whether the history has grown past the warning threshold.  The
    /// warning is soft: nothing is trimmed or summarized.
    pub fn history_warning(&self) -> (r: bool)
        ensures
            r == (self@.len() > CONVERSATION_WARNING_THRESHOLD),
    {
        self.conversation.len() > CONVERSATION_WARNING_THRESHOLD
    }

    /// Record a freshly issued task as a user turn.  History is kept.
    pub fn start_task(&mut self, user_prompt: &str)
        ensures
            final(self)@ == old(self)@.push(
                MessageView { role: "user"@, content: task_wrap(user_prompt@) },
            ),
    {
        let mut buf = chars_of("Task: ");
        let mut t1 = chars_of(user_prompt);
        buf.append(&mut t1);
        let mut t2 = chars_of("\n\nThe browser is on the current page. What is your next step?");
        buf.append(&mut t2);
        assert(buf@ =~= task_wrap(user_prompt@));
        self.conversation.push(
            ChatMessage { role: "user".to_owned(), content: string_from_chars(&buf) },
        );
        assert(final(self)@ =~= old(self)@.push(
            MessageView { role: "user"@, content: task_wrap(user_prompt@) },
        ));
    }

    /// Record one observation as a user turn.
    pub fn observe(&mut self, page_state: &PageState)
        ensures
            final(self)@ == old(self)@.push(
                MessageView { role: "user"@, content: observation_text(page_state@) },
            ),
    {
        let ghost pv = page_state@;
        let mut buf = chars_of("Page URL: ");
        let mut t1 = chars_of(page_state.url.as_str());
        buf.append(&mut t1);
        let mut t2 = chars_of("\nTitle: ");
        buf.append(&mut t2);
        let mut t3 = chars_of(page_state.title.as_str());
        buf.append(&mut t3);
        let mut t4 = chars_of("\n\nDOM:\n");
        buf.append(&mut t4);
        let mut t5 = chars_of(page_state.dom_snapshot.as_str());
        buf.append(&mut t5);
        match &page_state.error {
            Some(e) => {
                let mut t6 = chars_of("\n\nERROR from last step: ");
                buf.append(&mut t6);
                let mut t7 = chars_of(e.as_str());
                buf.append(&mut t7);
            },
            None => {},
        }
        assert(buf@ + extr_text(pv.extracted, 0) =~= observation_text(pv));
        let mut i: usize = 0;
        while i < page_state.extracted.len()
            invariant
                i <= page_state.extracted@.len(),
                pv == page_state@,
                pv.extracted.len() == page_state.extracted@.len(),
                buf@ + extr_text(pv.extracted, i as int) == observation_text(pv),
            decreases page_state.extracted@.len() - i,
        {
            let mut u1 = chars_of("\n\nExtracted [");
            buf.append(&mut u1);
            let mut u2 = chars_of(page_state.extracted[i].label.as_str());
            buf.append(&mut u2);
            let mut u3 = chars_of("]: ");
            buf.append(&mut u3);
            let mut u4 = chars_of(page_state.extracted[i].content.as_str());
            buf.append(&mut u4);
            proof {
                assert(pv.extracted[i as int] == page_state.extracted@[i as int]@);
                assert(buf@ + extr_text(pv.extracted, i as int + 1) =~= observation_text(pv));
            }
            i = i + 1;
        }
        assert(extr_text(pv.extracted, i as int) =~= Seq::<char>::empty());
        assert(buf@ =~= observation_text(pv));
        self.conversation.push(
            ChatMessage { role: "user".to_owned(), content: string_from_chars(&buf) },
        );
        assert(final(self)@ =~= old(self)@.push(
            MessageView { role: "user"@, content: observation_text(page_state@) },
        ));
    }

    /// Record one reply of the decision service, verbatim, as an
    /// assistant turn.  Replies are recorded whether or not they later
    /// parse as an action.
    pub fn record_reply(&mut self, content: &str)
        ensures
            final(self)@ == old(self)@.push(MessageView { role: "assistant"@, content: content@ }),
    {
        let mut buf = chars_of(content);
        self.conversation.push(
            ChatMessage { role: "assistant".to_owned(), content: string_from_chars(&buf) },
        );
        assert(final(self)@ =~= old(self)@.push(
            MessageView { role: "assistant"@, content: content@ },
        ));
    }

    /// The full history, encoded for durable storage.  Callers persist
    /// this after every mutation, so a restart resumes with full memory.
    pub fn export_memory(&self) -> (r: String)
        ensures
            r@ == enc_conv(self@),
    {
        let mut buf: Vec<char> = Vec::new();
        write_conv(&mut buf, &self.conversation);
        string_from_chars(&buf)
    }

    /// Adopt a persisted history: the stored turns replace the current
    /// ones exactly when the text decodes and its first record has the
    /// system role; otherwise the store is left as it stands.
    pub fn load_memory(&mut self, text: &str) -> (loaded: bool)
        ensures
            loaded == (sp_conv(text@) matches Some(ms) && ms.len() > 0 && ms[0].role
                == "system"@),
            loaded ==> Some(final(self)@) == sp_conv(text@),
            !loaded ==> *final(self) == *old(self),
    {
        let cs = chars_of(text);
        match parse_conv(&cs) {
            Some(v) => {
                if v.len() > 0 {
                    let rolev = chars_of(v[0].role.as_str());
                    let sysv = chars_of("system");
                    if chars_eq(&rolev, &sysv) {
                        assert(msgs_view(v@)[0].role == "system"@);
                        self.conversation = v;
                        true
                    } else {
                        false
                    }
                } else {
                    false
                }
            },
            None => false,
        }
    }

    /// The request body for one decision call: the named model, the full
    /// ordered conversation, and the fixed temperature.
    pub fn request_body(&self, model: &str) -> (r: String)
        ensures
            r@ == enc_request(model@, self@),
    {
        let mut buf: Vec<char> = Vec::new();
        buf.push('{');
        let mk = chars_of("model");
        write_jstr(&mut buf, &mk);
        buf.push(':');
        let mv = chars_of(model);
        write_jstr(&mut buf, &mv);
        buf.push(',');
        let msk = chars_of("messages");
        write_jstr(&mut buf, &msk);
        buf.push(':');
        write_conv(&mut buf, &self.conversation);
        buf.push(',');
        let tk = chars_of("temperature");
        write_jstr(&mut buf, &tk);
        buf.push(':');
        buf.push('0');
        buf.push('.');
        buf.push('2');
        buf.push('}');
        assert(buf@ =~= enc_request(model@, self@));
        string_from_chars(&buf)
    }
}

} // verus!
