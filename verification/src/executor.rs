//! The action executor's logic: what applying one step to the live page
//! means, as a sequence of browser-driver commands, and how an extracted
//! text becomes an extraction.  The driver calls themselves are input
//! and output and live outside the library; the command plan, the
//! selector escaping inside the evaluated scripts, the fixed settle
//! delays, and the extraction cap are the logic and are verified here.

use vstd::prelude::*;
use crate::text::chars_of;
use crate::text::string_from_chars;
use crate::types::Extraction;
use crate::types::Step;
use crate::types::StepView;

verus! {

/// Milliseconds a navigation is given to settle after the page body
/// exists.
pub const NAVIGATE_SETTLE_MS: u64 = 1500;

/// Milliseconds a click or key press is given to settle.
pub const ACTION_SETTLE_MS: u64 = 1000;

/// The most characters one extraction keeps.
pub const EXTRACT_MAX_CHARS: usize = 2000;

/// One browser-driver command: the capability interface the loop
/// performs against the live page.
#[derive(Clone, Debug)]
pub enum BrowserCommand {
    /// Load a URL.
    Navigate { url: String },
    /// Wait until the selector matches, with the driver's default
    /// timeout when none is given.
    WaitForElement { selector: String, timeout_ms: Option<u64> },
    /// Find the element and click it.
    FindAndClick { selector: String },
    /// Evaluate a script for its side effect.
    EvalScript { script: String },
    /// Type text as keystrokes, so input listeners fire.
    TypeText { text: String },
    /// Dispatch one key event.
    PressKey { key: String },
    /// Evaluate a script and hand back its text result.
    ReadText { script: String },
    /// Pause a fixed settle interval.
    Sleep { millis: u64 },
}

/// The mathematical value of a `BrowserCommand`.
pub enum CommandView {
    Navigate { url: Seq<char> },
    WaitForElement { selector: Seq<char>, timeout_ms: Option<u64> },
    FindAndClick { selector: Seq<char> },
    EvalScript { script: Seq<char> },
    TypeText { text: Seq<char> },
    PressKey { key: Seq<char> },
    ReadText { script: Seq<char> },
    Sleep { millis: u64 },
}

impl View for BrowserCommand {
    type V = CommandView;

    open spec fn view(&self) -> CommandView {
        match self {
            BrowserCommand::Navigate { url } => CommandView::Navigate { url: url@ },
            BrowserCommand::WaitForElement { selector, timeout_ms } => {
                CommandView::WaitForElement { selector: selector@, timeout_ms: *timeout_ms }
            },
            BrowserCommand::FindAndClick { selector } => CommandView::FindAndClick {
                selector: selector@,
            },
            BrowserCommand::EvalScript { script } => CommandView::EvalScript { script: script@ },
            BrowserCommand::TypeText { text } => CommandView::TypeText { text: text@ },
            BrowserCommand::PressKey { key } => CommandView::PressKey { key: key@ },
            BrowserCommand::ReadText { script } => CommandView::ReadText { script: script@ },
            BrowserCommand::Sleep { millis } => CommandView::Sleep { millis: *millis },
        }
    }
}

pub open spec fn cmds_view(v: Seq<BrowserCommand>) -> Seq<CommandView> {
    Seq::new(v.len(), |i: int| v[i]@)
}

/// A selector as it stands inside a single-quoted script string: every
/// single quote escaped.
pub open spec fn esc_squote(s: Seq<char>) -> Seq<char>
    decreases s.len(),
{
    if s.len() == 0 {
        Seq::empty()
    } else {
        (if s[0] == '\'' {
            seq!['\\', '\'']
        } else {
            seq![s[0]]
        }) + esc_squote(s.skip(1))
    }
}

/// The script that clears an element's current value before typing.
pub open spec fn clear_value_script(sel: Seq<char>) -> Seq<char> {
    "document.querySelector('"@ + esc_squote(sel) + "').value = ''"@
}

/// The script that reads an element's rendered text, empty when the
/// element is absent.
pub open spec fn read_text_script(sel: Seq<char>) -> Seq<char> {
    "(document.querySelector('"@ + esc_squote(sel) + "') || {}).innerText || ''"@
}

/// The commands that apply one step: navigation waits for the body and
/// settles; typing clicks, clears, then types keystrokes; clicking and
/// key presses settle; extraction reads text; `Screenshot` is accepted
/// with no effect; `Done` touches no page; `NewTab` mutates session
/// state, which the orchestrating loop handles, not the page.
pub open spec fn plan_spec(st: StepView) -> Seq<CommandView> {
    match st {
        StepView::Navigate { url } => seq![
            CommandView::Navigate { url },
            CommandView::WaitForElement { selector: "body"@, timeout_ms: None },
            CommandView::Sleep { millis: NAVIGATE_SETTLE_MS },
        ],
        StepView::WaitFor { selector, timeout_ms } => seq![
            CommandView::WaitForElement { selector, timeout_ms: Some(timeout_ms) },
        ],
        StepView::TypeInto { selector, text } => seq![
            CommandView::FindAndClick { selector },
            CommandView::EvalScript { script: clear_value_script(selector) },
            CommandView::TypeText { text },
        ],
        StepView::Click { selector } => seq![
            CommandView::FindAndClick { selector },
            CommandView::Sleep { millis: ACTION_SETTLE_MS },
        ],
        StepView::PressKey { key } => seq![
            CommandView::PressKey { key },
            CommandView::Sleep { millis: ACTION_SETTLE_MS },
        ],
        StepView::Extract { selector, label } => seq![
            CommandView::ReadText { script: read_text_script(selector) },
        ],
        StepView::Screenshot => Seq::empty(),
        StepView::Done { summary } => Seq::empty(),
        StepView::NewTab => Seq::empty(),
    }
}

proof fn lemma_esc_squote_take_step(s: Seq<char>, i: int)
    requires
        0 <= i < s.len(),
    ensures
        esc_squote(s.take(i + 1)) == esc_squote(s.take(i)) + (if s[i] == '\'' {
            seq!['\\', '\'']
        } else {
            seq![s[i]]
        }),
    decreases i,
{
    if i == 0 {
        assert(s.take(1) =~= seq![s[0]]);
        assert(s.take(1).skip(1) =~= Seq::<char>::empty());
        assert(s.take(0) =~= Seq::<char>::empty());
        assert(esc_squote(s.take(i + 1)) =~= esc_squote(s.take(i)) + (if s[i] == '\'' {
            seq!['\\', '\'']
        } else {
            seq![s[i]]
        }));
    } else {
        lemma_esc_squote_take_step(s.skip(1), i - 1);
        assert(s.take(i + 1).skip(1) =~= s.skip(1).take(i));
        assert(s.take(i).skip(1) =~= s.skip(1).take(i - 1));
        assert(s.take(i + 1)[0] == s[0]);
        assert(s.take(i)[0] == s[0]);
        assert(s.skip(1)[i - 1] == s[i]);
        assert(esc_squote(s.take(i + 1)) =~= esc_squote(s.take(i)) + (if s[i] == '\'' {
            seq!['\\', '\'']
        } else {
            seq![s[i]]
        }));
    }
}

/// A selector with its single quotes escaped.
fn escape_squotes(sel: &str) -> (r: Vec<char>)
    ensures
        r@ == esc_squote(sel@),
{
    let cs = chars_of(sel);
    let mut out: Vec<char> = Vec::new();
    let mut i: usize = 0;
    assert(cs@.take(0) =~= Seq::<char>::empty());
    while i < cs.len()
        invariant
            cs@ == sel@,
            i <= cs@.len(),
            out@ == esc_squote(cs@.take(i as int)),
        decreases cs@.len() - i,
    {
        proof {
            lemma_esc_squote_take_step(cs@, i as int);
        }
        if cs[i] == '\'' {
            out.push('\\');
            out.push('\'');
        } else {
            out.push(cs[i]);
        }
        i = i + 1;
    }
    assert(cs@.take(cs@.len() as int) =~= cs@);
    out
}

fn push_str_chars(out: &mut Vec<char>, s: &str)
    ensures
        final(out)@ == old(out)@ + s@,
{
    let mut v = chars_of(s);
    out.append(&mut v);
}

fn build_clear_script(sel: &str) -> (r: String)
    ensures
        r@ == clear_value_script(sel@),
{
    let mut buf: Vec<char> = Vec::new();
    push_str_chars(&mut buf, "document.querySelector('");
    let mut e = escape_squotes(sel);
    buf.append(&mut e);
    push_str_chars(&mut buf, "').value = ''");
    assert(buf@ =~= clear_value_script(sel@));
    string_from_chars(&buf)
}

fn build_read_script(sel: &str) -> (r: String)
    ensures
        r@ == read_text_script(sel@),
{
    let mut buf: Vec<char> = Vec::new();
    push_str_chars(&mut buf, "(document.querySelector('");
    let mut e = escape_squotes(sel);
    buf.append(&mut e);
    push_str_chars(&mut buf, "') || {}).innerText || ''");
    assert(buf@ =~= read_text_script(sel@));
    string_from_chars(&buf)
}

/// The command plan of one step.
pub fn plan(step: &Step) -> (r: Vec<BrowserCommand>)
    ensures
        cmds_view(r@) == plan_spec(step@),
{
    let mut out: Vec<BrowserCommand> = Vec::new();
    match step {
        Step::Navigate { url } => {
            out.push(BrowserCommand::Navigate { url: url.clone() });
            out.push(
                BrowserCommand::WaitForElement { selector: "body".to_owned(), timeout_ms: None },
            );
            out.push(BrowserCommand::Sleep { millis: NAVIGATE_SETTLE_MS });
        },
        Step::WaitFor { selector, timeout_ms } => {
            out.push(
                BrowserCommand::WaitForElement {
                    selector: selector.clone(),
                    timeout_ms: Some(*timeout_ms),
                },
            );
        },
        Step::TypeInto { selector, text } => {
            out.push(BrowserCommand::FindAndClick { selector: selector.clone() });
            out.push(BrowserCommand::EvalScript { script: build_clear_script(selector.as_str()) });
            out.push(BrowserCommand::TypeText { text: text.clone() });
        },
        Step::Click { selector } => {
            out.push(BrowserCommand::FindAndClick { selector: selector.clone() });
            out.push(BrowserCommand::Sleep { millis: ACTION_SETTLE_MS });
        },
        Step::PressKey { key } => {
            out.push(BrowserCommand::PressKey { key: key.clone() });
            out.push(BrowserCommand::Sleep { millis: ACTION_SETTLE_MS });
        },
        Step::Extract { selector, label } => {
            out.push(BrowserCommand::ReadText { script: build_read_script(selector.as_str()) });
        },
        Step::Screenshot => {},
        Step::Done { summary } => {},
        Step::NewTab => {},
    }
    assert(cmds_view(out@) =~= plan_spec(step@));
    out
}

/// The extraction built from a read text: the caller's label, the
/// content capped at the fixed limit.
pub fn make_extraction(label: &str, content: &str) -> (r: Extraction)
    ensures
        r@.label == label@,
        r@.content == crate::snapshot::clip(content@, EXTRACT_MAX_CHARS as int),
{
    let cs = chars_of(content);
    let end = if cs.len() <= EXTRACT_MAX_CHARS {
        cs.len()
    } else {
        EXTRACT_MAX_CHARS
    };
    let mut out: Vec<char> = Vec::new();
    let mut k: usize = 0;
    while k < end
        invariant
            end <= cs@.len(),
            k <= end,
            out@ == cs@.take(end as int).take(k as int),
        decreases end - k,
    {
        out.push(cs[k]);
        assert(out@ =~= cs@.take(end as int).take(k as int + 1));
        k = k + 1;
    }
    proof {
        assert(cs@.take(end as int).take(end as int) =~= cs@.take(end as int));
        if cs@.len() <= EXTRACT_MAX_CHARS {
            assert(cs@.take(end as int) =~= cs@);
        }
    }
    Extraction { label: label.to_owned(), content: string_from_chars(&out) }
}

} // verus!
