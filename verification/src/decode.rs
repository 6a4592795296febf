//! The strict decode of a decision reply into one action: optional
//! markdown fences are stripped verbatim, and the remaining text must be
//! one JSON object of scalar fields, tagged by its `action` field.
//! Malformed structure, an unknown tag, and a missing or mistyped field
//! are each refused with their own error; fields beyond the ones an
//! action requires are ignored, never guessed at.

use vstd::prelude::*;
use crate::json::is_ws;
use crate::json::sp_ws;
use crate::json::sp_obj;
use crate::json::p_ws;
use crate::json::p_obj;
use crate::json::pairs_view;
use crate::json::JsonScalar;
use crate::json::ScalarView;
use crate::text::chars_of;
use crate::text::dec_digits;
use crate::text::push_decimal;
use crate::text::string_from_chars;
use crate::types::Step;
use crate::types::StepView;
use crate::convo::Brain;

verus! {

/// Why a decision reply failed to decode into an action.
#[derive(Clone, Copy, Debug, PartialEq, Eq, Structural)]
pub enum DecodeError {
    /// The reply is not one well-formed JSON object of scalar fields,
    /// or carries text or a duplicate field beyond it.
    Syntax,
    /// The `action` tag names no action in the closed set.
    UnknownAction,
    /// A required field (the `action` tag included) is absent or not of
    /// the required type.
    MissingField,
}

pub open spec fn decode_error_text(e: DecodeError) -> Seq<char> {
    match e {
        DecodeError::Syntax => "reply is not a single action object"@,
        DecodeError::UnknownAction => "reply names an unknown action"@,
        DecodeError::MissingField => "reply is missing a required action field"@,
    }
}

impl DecodeError {
    /// A short description of the failure.
    pub fn message(&self) -> (r: String)
        ensures
            r@ == decode_error_text(*self),
    {
        match self {
            DecodeError::Syntax => "reply is not a single action object".to_owned(),
            DecodeError::UnknownAction => "reply names an unknown action".to_owned(),
            DecodeError::MissingField => "reply is missing a required action field".to_owned(),
        }
    }
}

// ===== stripping the optional markdown fences =====

pub open spec fn drop_leading_ws(s: Seq<char>) -> Seq<char>
    decreases s.len(),
{
    if s.len() > 0 && is_ws(s[0]) {
        drop_leading_ws(s.skip(1))
    } else {
        s
    }
}

pub open spec fn drop_trailing_ws(s: Seq<char>) -> Seq<char>
    decreases s.len(),
{
    if s.len() > 0 && is_ws(s.last()) {
        drop_trailing_ws(s.drop_last())
    } else {
        s
    }
}

pub open spec fn trim_ws(s: Seq<char>) -> Seq<char> {
    drop_trailing_ws(drop_leading_ws(s))
}

/// Strip every leading repetition of `p`, verbatim.
pub open spec fn strip_reps_front(s: Seq<char>, p: Seq<char>) -> Seq<char>
    decreases s.len(),
{
    if p.len() > 0 && s.len() >= p.len() && s.take(p.len() as int) == p {
        strip_reps_front(s.skip(p.len() as int), p)
    } else {
        s
    }
}

/// Strip every trailing repetition of `p`, verbatim.
pub open spec fn strip_reps_back(s: Seq<char>, p: Seq<char>) -> Seq<char>
    decreases s.len(),
{
    if p.len() > 0 && s.len() >= p.len() && s.skip(s.len() - p.len()) == p {
        strip_reps_back(s.take(s.len() - p.len()), p)
    } else {
        s
    }
}

/// A reply after fence stripping: trimmed, leading "```json" then "```"
/// repetitions removed, trailing "```" repetitions removed, trimmed again.
pub open spec fn cleaned_reply(s: Seq<char>) -> Seq<char> {
    trim_ws(
        strip_reps_back(
            strip_reps_front(strip_reps_front(trim_ws(s), "```json"@), "```"@),
            "```"@,
        ),
    )
}

fn window_starts_with(cs: &Vec<char>, lo: usize, hi: usize, p: &Vec<char>) -> (r: bool)
    requires
        lo <= hi <= cs@.len(),
    ensures
        r == (hi - lo >= p@.len() && cs@.subrange(lo as int, hi as int).take(p@.len() as int)
            == p@),
{
    if hi - lo < p.len() {
        return false;
    }
    let mut k: usize = 0;
    while k < p.len()
        invariant
            lo <= hi <= cs@.len(),
            hi - lo >= p@.len(),
            k <= p@.len(),
            forall|m: int| 0 <= m < k ==> cs@[lo + m] == p@[m],
        decreases p@.len() - k,
    {
        if cs[lo + k] != p[k] {
            assert(cs@.subrange(lo as int, hi as int).take(p@.len() as int)[k as int]
                != p@[k as int]);
            return false;
        }
        k = k + 1;
    }
    proof {
        assert(cs@.subrange(lo as int, hi as int).take(p@.len() as int) =~= p@);
    }
    true
}

fn window_ends_with(cs: &Vec<char>, lo: usize, hi: usize, p: &Vec<char>) -> (r: bool)
    requires
        lo <= hi <= cs@.len(),
    ensures
        r == (hi - lo >= p@.len() && cs@.subrange(lo as int, hi as int).skip(
            hi - lo - p@.len() as int,
        ) == p@),
{
    if hi - lo < p.len() {
        return false;
    }
    let base = hi - p.len();
    let mut k: usize = 0;
    while k < p.len()
        invariant
            lo <= hi <= cs@.len(),
            hi - lo >= p@.len(),
            base == hi - p@.len(),
            k <= p@.len(),
            forall|m: int| 0 <= m < k ==> cs@[base + m] == p@[m],
        decreases p@.len() - k,
    {
        if cs[base + k] != p[k] {
            assert(cs@.subrange(lo as int, hi as int).skip(hi - lo - p@.len() as int)[k as int]
                != p@[k as int]);
            return false;
        }
        k = k + 1;
    }
    proof {
        assert(cs@.subrange(lo as int, hi as int).skip(hi - lo - p@.len() as int) =~= p@);
    }
    true
}

fn copy_range(cs: &Vec<char>, lo: usize, hi: usize) -> (r: Vec<char>)
    requires
        lo <= hi <= cs@.len(),
    ensures
        r@ == cs@.subrange(lo as int, hi as int),
{
    let mut r: Vec<char> = Vec::new();
    let mut k = lo;
    while k < hi
        invariant
            lo <= k <= hi <= cs@.len(),
            r@ == cs@.subrange(lo as int, k as int),
        decreases hi - k,
    {
        r.push(cs[k]);
        assert(r@ =~= cs@.subrange(lo as int, k as int + 1));
        k = k + 1;
    }
    r
}

fn ws_char(c: char) -> (r: bool)
    ensures
        r == is_ws(c),
{
    c == ' ' || c == '\n' || c == '\r' || c == '\t'
}

/// Strip fences and surrounding whitespace from a raw reply.
pub fn clean_reply(cs: &Vec<char>) -> (r: Vec<char>)
    ensures
        r@ == cleaned_reply(cs@),
{
    let mut lo: usize = 0;
    let mut hi: usize = cs.len();

    // leading whitespace
    let ghost w0 = cs@.subrange(lo as int, hi as int);
    assert(w0 == cs@) by {
        assert(cs@.subrange(0, cs@.len() as int) =~= cs@);
    }
    while lo < hi && ws_char(cs[lo])
        invariant
            lo <= hi <= cs@.len(),
            drop_leading_ws(w0) == drop_leading_ws(cs@.subrange(lo as int, hi as int)),
        decreases hi - lo,
    {
        assert(cs@.subrange(lo as int, hi as int).skip(1) =~= cs@.subrange(
            lo as int + 1,
            hi as int,
        ));
        lo = lo + 1;
    }
    assert(drop_leading_ws(w0) == cs@.subrange(lo as int, hi as int));

    // trailing whitespace
    let ghost w1 = cs@.subrange(lo as int, hi as int);
    while hi > lo && ws_char(cs[hi - 1])
        invariant
            lo <= hi <= cs@.len(),
            drop_trailing_ws(w1) == drop_trailing_ws(cs@.subrange(lo as int, hi as int)),
        decreases hi - lo,
    {
        assert(cs@.subrange(lo as int, hi as int).drop_last() =~= cs@.subrange(
            lo as int,
            hi as int - 1,
        ));
        hi = hi - 1;
    }
    assert(drop_trailing_ws(w1) == cs@.subrange(lo as int, hi as int));
    assert(trim_ws(w0) == cs@.subrange(lo as int, hi as int));

    // leading "```json" repetitions
    let fj = chars_of("```json");
    let ghost w2 = cs@.subrange(lo as int, hi as int);
    while window_starts_with(cs, lo, hi, &fj)
        invariant
            lo <= hi <= cs@.len(),
            fj@ == "```json"@,
            strip_reps_front(w2, "```json"@) == strip_reps_front(
                cs@.subrange(lo as int, hi as int),
                "```json"@,
            ),
        decreases hi - lo,
    {
        proof {
            reveal_strlit("```json");
        }
        assert(cs@.subrange(lo as int, hi as int).skip(7) =~= cs@.subrange(
            lo as int + 7,
            hi as int,
        ));
        lo = lo + 7;
    }
    proof {
        reveal_strlit("```json");
    }
    assert(strip_reps_front(w2, "```json"@) == cs@.subrange(lo as int, hi as int));

    // leading "```" repetitions
    let f3 = chars_of("```");
    let ghost w3 = cs@.subrange(lo as int, hi as int);
    while window_starts_with(cs, lo, hi, &f3)
        invariant
            lo <= hi <= cs@.len(),
            f3@ == "```"@,
            strip_reps_front(w3, "```"@) == strip_reps_front(
                cs@.subrange(lo as int, hi as int),
                "```"@,
            ),
        decreases hi - lo,
    {
        proof {
            reveal_strlit("```");
        }
        assert(cs@.subrange(lo as int, hi as int).skip(3) =~= cs@.subrange(
            lo as int + 3,
            hi as int,
        ));
        lo = lo + 3;
    }
    proof {
        reveal_strlit("```");
    }
    assert(strip_reps_front(w3, "```"@) == cs@.subrange(lo as int, hi as int));

    // trailing "```" repetitions
    let ghost w4 = cs@.subrange(lo as int, hi as int);
    while window_ends_with(cs, lo, hi, &f3)
        invariant
            lo <= hi <= cs@.len(),
            f3@ == "```"@,
            strip_reps_back(w4, "```"@) == strip_reps_back(
                cs@.subrange(lo as int, hi as int),
                "```"@,
            ),
        decreases hi - lo,
    {
        proof {
            reveal_strlit("```");
        }
        assert(cs@.subrange(lo as int, hi as int).take(hi - lo - 3) =~= cs@.subrange(
            lo as int,
            hi as int - 3,
        ));
        hi = hi - 3;
    }
    assert(strip_reps_back(w4, "```"@) == cs@.subrange(lo as int, hi as int));

    // final trim
    let ghost w5 = cs@.subrange(lo as int, hi as int);
    while lo < hi && ws_char(cs[lo])
        invariant
            lo <= hi <= cs@.len(),
            drop_leading_ws(w5) == drop_leading_ws(cs@.subrange(lo as int, hi as int)),
        decreases hi - lo,
    {
        assert(cs@.subrange(lo as int, hi as int).skip(1) =~= cs@.subrange(
            lo as int + 1,
            hi as int,
        ));
        lo = lo + 1;
    }
    assert(drop_leading_ws(w5) == cs@.subrange(lo as int, hi as int));
    let ghost w6 = cs@.subrange(lo as int, hi as int);
    while hi > lo && ws_char(cs[hi - 1])
        invariant
            lo <= hi <= cs@.len(),
            drop_trailing_ws(w6) == drop_trailing_ws(cs@.subrange(lo as int, hi as int)),
        decreases hi - lo,
    {
        assert(cs@.subrange(lo as int, hi as int).drop_last() =~= cs@.subrange(
            lo as int,
            hi as int - 1,
        ));
        hi = hi - 1;
    }
    assert(drop_trailing_ws(w6) == cs@.subrange(lo as int, hi as int));
    assert(cleaned_reply(cs@) == cs@.subrange(lo as int, hi as int));

    copy_range(cs, lo, hi)
}

// ===== assembling the action =====

/// The first value bound to `k`, if any.
pub open spec fn lookup(ps: Seq<(Seq<char>, ScalarView)>, k: Seq<char>) -> Option<ScalarView>
    decreases ps.len(),
{
    if ps.len() == 0 {
        None
    } else if ps[0].0 == k {
        Some(ps[0].1)
    } else {
        lookup(ps.skip(1), k)
    }
}

/// No field name occurs twice.
pub open spec fn keys_unique(ps: Seq<(Seq<char>, ScalarView)>) -> bool {
    forall|i: int, j: int| 0 <= i < j < ps.len() ==> (#[trigger] ps[i]).0 != (#[trigger] ps[j]).0
}

/// Build the action out of the object's fields: the `action` tag picks
/// the variant, each variant requires its own fields; fields beyond them
/// are ignored.
pub open spec fn sp_assemble(ps: Seq<(Seq<char>, ScalarView)>) -> Result<StepView, DecodeError> {
    match lookup(ps, "action"@) {
        None => Err(DecodeError::MissingField),
        Some(ScalarView::Num(n)) => Err(DecodeError::MissingField),
        Some(ScalarView::Str(tag)) => {
            if tag == "Navigate"@ {
                match lookup(ps, "url"@) {
                    Some(ScalarView::Str(u)) => Ok(StepView::Navigate { url: u }),
                    _ => Err(DecodeError::MissingField),
                }
            } else if tag == "WaitFor"@ {
                match (lookup(ps, "selector"@), lookup(ps, "timeout_ms"@)) {
                    (Some(ScalarView::Str(sel)), Some(ScalarView::Num(t))) => Ok(
                        StepView::WaitFor { selector: sel, timeout_ms: t },
                    ),
                    _ => Err(DecodeError::MissingField),
                }
            } else if tag == "TypeInto"@ {
                match (lookup(ps, "selector"@), lookup(ps, "text"@)) {
                    (Some(ScalarView::Str(sel)), Some(ScalarView::Str(t))) => Ok(
                        StepView::TypeInto { selector: sel, text: t },
                    ),
                    _ => Err(DecodeError::MissingField),
                }
            } else if tag == "Click"@ {
                match lookup(ps, "selector"@) {
                    Some(ScalarView::Str(sel)) => Ok(StepView::Click { selector: sel }),
                    _ => Err(DecodeError::MissingField),
                }
            } else if tag == "PressKey"@ {
                match lookup(ps, "key"@) {
                    Some(ScalarView::Str(k)) => Ok(StepView::PressKey { key: k }),
                    _ => Err(DecodeError::MissingField),
                }
            } else if tag == "Extract"@ {
                match (lookup(ps, "selector"@), lookup(ps, "label"@)) {
                    (Some(ScalarView::Str(sel)), Some(ScalarView::Str(l))) => Ok(
                        StepView::Extract { selector: sel, label: l },
                    ),
                    _ => Err(DecodeError::MissingField),
                }
            } else if tag == "Screenshot"@ {
                Ok(StepView::Screenshot)
            } else if tag == "Done"@ {
                match lookup(ps, "summary"@) {
                    Some(ScalarView::Str(su)) => Ok(StepView::Done { summary: su }),
                    _ => Err(DecodeError::MissingField),
                }
            } else if tag == "NewTab"@ {
                Ok(StepView::NewTab)
            } else {
                Err(DecodeError::UnknownAction)
            }
        },
    }
}

/// Decode one cleaned reply: exactly one object, nothing but whitespace
/// after it, no duplicate field, then the assembly above.
pub open spec fn sp_decode_action(s: Seq<char>) -> Result<StepView, DecodeError> {
    let i = sp_ws(s, 0);
    match sp_obj(s, i) {
        None => Err(DecodeError::Syntax),
        Some((ps, j)) => if sp_ws(s, j) != s.len() {
            Err(DecodeError::Syntax)
        } else if !keys_unique(ps) {
            Err(DecodeError::Syntax)
        } else {
            sp_assemble(ps)
        },
    }
}

/// What a raw reply decodes to, fences and all.
pub open spec fn sp_parse_reply(s: Seq<char>) -> Result<StepView, DecodeError> {
    sp_decode_action(cleaned_reply(s))
}

fn lookup_field<'a>(ps: &'a Vec<(Vec<char>, JsonScalar)>, key: &Vec<char>) -> (r: Option<
    &'a JsonScalar,
>)
    ensures
        match r {
            Some(v) => lookup(pairs_view(ps@), key@) == Some(v@),
            None => lookup(pairs_view(ps@), key@) is None,
        },
{
    assert(pairs_view(ps@).skip(0) =~= pairs_view(ps@));
    let mut i: usize = 0;
    while i < ps.len()
        invariant
            i <= ps@.len(),
            lookup(pairs_view(ps@), key@) == lookup(pairs_view(ps@).skip(i as int), key@),
        decreases ps@.len() - i,
    {
        if crate::convo::chars_eq(&ps[i].0, key) {
            assert(pairs_view(ps@).skip(i as int)[0] == pairs_view(ps@)[i as int]);
            return Some(&ps[i].1);
        }
        assert(pairs_view(ps@).skip(i as int)[0] == pairs_view(ps@)[i as int]);
        assert(pairs_view(ps@).skip(i as int).skip(1) =~= pairs_view(ps@).skip(i as int + 1));
        i = i + 1;
    }
    assert(pairs_view(ps@).skip(i as int).len() == 0);
    None
}

fn keys_all_unique(ps: &Vec<(Vec<char>, JsonScalar)>) -> (r: bool)
    ensures
        r == keys_unique(pairs_view(ps@)),
{
    let mut i: usize = 0;
    while i < ps.len()
        invariant
            i <= ps@.len(),
            forall|a: int, b: int|
                0 <= a < b < ps@.len() && a < i ==> (#[trigger] pairs_view(ps@)[a]).0 != (
                #[trigger] pairs_view(ps@)[b]).0,
        decreases ps@.len() - i,
    {
        let mut j: usize = i + 1;
        while j < ps.len()
            invariant
                i < ps@.len() || i == ps@.len(),
                i + 1 <= j,
                j <= ps@.len() || (i + 1 > ps@.len() && j == i + 1),
                i < ps@.len() ==> j <= ps@.len() || j == i + 1,
                forall|b: int| i < b < j ==> (#[trigger] pairs_view(ps@)[b]).0 != pairs_view(
                    ps@,
                )[i as int].0,
            decreases ps@.len() - j,
        {
            if crate::convo::chars_eq(&ps[i].0, &ps[j].0) {
                assert(pairs_view(ps@)[i as int].0 == pairs_view(ps@)[j as int].0);
                return false;
            }
            j = j + 1;
        }
        i = i + 1;
    }
    true
}

/// Decode a raw decision reply into one action.
pub fn parse_step(reply: &str) -> (r: Result<Step, DecodeError>)
    ensures
        match r {
            Ok(st) => sp_parse_reply(reply@) == Ok::<StepView, DecodeError>(st@),
            Err(e) => sp_parse_reply(reply@) == Err::<StepView, DecodeError>(e),
        },
{
    let cs = chars_of(reply);
    let cleaned = clean_reply(&cs);
    let i = p_ws(&cleaned, 0);
    match p_obj(&cleaned, i) {
        None => Err(DecodeError::Syntax),
        Some((ps, j)) => {
            if p_ws(&cleaned, j) != cleaned.len() {
                return Err(DecodeError::Syntax);
            }
            if !keys_all_unique(&ps) {
                return Err(DecodeError::Syntax);
            }
            assemble(&ps)
        },
    }
}

fn assemble(ps: &Vec<(Vec<char>, JsonScalar)>) -> (r: Result<Step, DecodeError>)
    ensures
        match r {
            Ok(st) => sp_assemble(pairs_view(ps@)) == Ok::<StepView, DecodeError>(st@),
            Err(e) => sp_assemble(pairs_view(ps@)) == Err::<StepView, DecodeError>(e),
        },
{
    let action_key = chars_of("action");
    let tag = match lookup_field(ps, &action_key) {
        None => {
            return Err(DecodeError::MissingField);
        },
        Some(JsonScalar::Num(_)) => {
            return Err(DecodeError::MissingField);
        },
        Some(JsonScalar::Str(t)) => t,
    };
    if crate::convo::chars_eq(tag, &chars_of("Navigate")) {
        match lookup_field(ps, &chars_of("url")) {
            Some(JsonScalar::Str(u)) => Ok(Step::Navigate { url: string_from_chars(u) }),
            _ => Err(DecodeError::MissingField),
        }
    } else if crate::convo::chars_eq(tag, &chars_of("WaitFor")) {
        match (lookup_field(ps, &chars_of("selector")), lookup_field(ps, &chars_of("timeout_ms"))) {
            (Some(JsonScalar::Str(sel)), Some(JsonScalar::Num(t))) => Ok(
                Step::WaitFor { selector: string_from_chars(sel), timeout_ms: *t },
            ),
            _ => Err(DecodeError::MissingField),
        }
    } else if crate::convo::chars_eq(tag, &chars_of("TypeInto")) {
        match (lookup_field(ps, &chars_of("selector")), lookup_field(ps, &chars_of("text"))) {
            (Some(JsonScalar::Str(sel)), Some(JsonScalar::Str(t))) => Ok(
                Step::TypeInto { selector: string_from_chars(sel), text: string_from_chars(t) },
            ),
            _ => Err(DecodeError::MissingField),
        }
    } else if crate::convo::chars_eq(tag, &chars_of("Click")) {
        match lookup_field(ps, &chars_of("selector")) {
            Some(JsonScalar::Str(sel)) => Ok(Step::Click { selector: string_from_chars(sel) }),
            _ => Err(DecodeError::MissingField),
        }
    } else if crate::convo::chars_eq(tag, &chars_of("PressKey")) {
        match lookup_field(ps, &chars_of("key")) {
            Some(JsonScalar::Str(k)) => Ok(Step::PressKey { key: string_from_chars(k) }),
            _ => Err(DecodeError::MissingField),
        }
    } else if crate::convo::chars_eq(tag, &chars_of("Extract")) {
        match (lookup_field(ps, &chars_of("selector")), lookup_field(ps, &chars_of("label"))) {
            (Some(JsonScalar::Str(sel)), Some(JsonScalar::Str(l))) => Ok(
                Step::Extract { selector: string_from_chars(sel), label: string_from_chars(l) },
            ),
            _ => Err(DecodeError::MissingField),
        }
    } else if crate::convo::chars_eq(tag, &chars_of("Screenshot")) {
        Ok(Step::Screenshot)
    } else if crate::convo::chars_eq(tag, &chars_of("Done")) {
        match lookup_field(ps, &chars_of("summary")) {
            Some(JsonScalar::Str(su)) => Ok(Step::Done { summary: string_from_chars(su) }),
            _ => Err(DecodeError::MissingField),
        }
    } else if crate::convo::chars_eq(tag, &chars_of("NewTab")) {
        Ok(Step::NewTab)
    } else {
        Err(DecodeError::UnknownAction)
    }
}

impl Brain {
    /// Record one decision-service reply verbatim as an assistant turn —
    /// whether or not it parses — then decode it into one action.
    pub fn accept_reply(&mut self, content: &str) -> (r: Result<Step, DecodeError>)
        ensures
            final(self)@ == old(self)@.push(
                crate::types::MessageView { role: "assistant"@, content: content@ },
            ),
            match r {
                Ok(st) => sp_parse_reply(content@) == Ok::<StepView, DecodeError>(st@),
                Err(e) => sp_parse_reply(content@) == Err::<StepView, DecodeError>(e),
            },
    {
        self.record_reply(content);
        parse_step(content)
    }
}

/// The fatal message of a decision-service failure at the transport
/// level: the status code and the service's own error text when it sent
/// one.
pub open spec fn service_error_text(status: u16, detail: Option<Seq<char>>) -> Seq<char> {
    "OpenAI API error ("@ + dec_digits(status as nat) + "): "@ + (match detail {
        Some(d) => d,
        None => "Unknown API error"@,
    })
}

/// Compose the fatal message for a non-success decision-service reply.
pub fn service_error_message(status: u16, detail: Option<&str>) -> (r: String)
    ensures
        r@ == service_error_text(
            status,
            match detail {
                Some(d) => Some(d@),
                None => None,
            },
        ),
{
    let mut buf = chars_of("OpenAI API error (");
    push_decimal(&mut buf, status as u64);
    let mut mid = chars_of("): ");
    buf.append(&mut mid);
    match detail {
        Some(d) => {
            let mut dv = chars_of(d);
            buf.append(&mut dv);
        },
        None => {
            let mut dv = chars_of("Unknown API error");
            buf.append(&mut dv);
        },
    }
    assert(buf@ =~= service_error_text(
        status,
        match detail {
            Some(d) => Some(d@),
            None => None,
        },
    ));
    string_from_chars(&buf)
}

} // verus!
