//! The perception encoder: turns a modeled page-element tree into the
//! compact textual snapshot fed to the decision service.  Interactive
//! elements get sequential short identifiers in traversal order; leaf
//! text within a length window is emitted; duplicate lines are
//! suppressed; the joined text is held to a character budget with an
//! explicit truncation marker.  The surrounding program extracts the
//! tree from the live page and stamps the same identifiers onto the
//! elements; this module holds the logic.

use vstd::prelude::*;
use crate::decode::drop_leading_ws;
use crate::decode::drop_trailing_ws;
use crate::decode::trim_ws;
use crate::json::is_ws;
use crate::text::chars_of;
use crate::text::dec_digits;
use crate::text::lemma_dec_digits_shape;
use crate::text::lemma_dec_digits_injective;
use crate::text::is_digit;
use crate::text::push_decimal;
use crate::text::string_from_chars;
use crate::types::DOM_SNAPSHOT_MAX_CHARS;

verus! {

/// What kind of element a node is, as far as the encoder cares.
#[derive(Clone, Copy, Debug, PartialEq, Eq, Structural)]
pub enum ElementKind {
    /// An anchor.
    Anchor,
    Button,
    Input,
    TextArea,
    Select,
    /// Non-content kinds: skipped, descendants included.
    Script,
    Style,
    NoScript,
    Svg,
    /// A stylesheet or resource link element.
    ResourceLink,
    /// Anything else: emitted only as leaf text.
    Other,
}

/// One element of the visible page tree, as the encoder models it: the
/// plain values the algorithm reads.
#[derive(Debug)]
pub struct DomNode {
    pub kind: ElementKind,
    /// Whether the element has a layout box and is not hidden.
    pub visible: bool,
    /// The rendered text content of the element's subtree.
    pub text: String,
    /// For inputs: the declared type, empty when missing.
    pub input_type: String,
    pub placeholder: String,
    pub name: String,
    pub value: String,
    /// For selects: the option texts.
    pub options: Vec<String>,
    pub children: Vec<DomNode>,
}

pub open spec fn interactive_kind(k: ElementKind) -> bool {
    k == ElementKind::Anchor || k == ElementKind::Button || k == ElementKind::Input || k
        == ElementKind::TextArea || k == ElementKind::Select
}

pub open spec fn skipped_kind(k: ElementKind) -> bool {
    k == ElementKind::Script || k == ElementKind::Style || k == ElementKind::NoScript || k
        == ElementKind::Svg || k == ElementKind::ResourceLink
}

/// At most the first `n` characters.
pub open spec fn clip(s: Seq<char>, n: int) -> Seq<char> {
    if s.len() <= n {
        s
    } else {
        s.take(n)
    }
}

/// The option texts of a select, each trimmed and clipped, joined with
/// a bar.
pub open spec fn options_text(os: Seq<Seq<char>>, i: int) -> Seq<char>
    decreases os.len() - i,
{
    if i < 0 || i >= os.len() {
        Seq::empty()
    } else if i + 1 == os.len() {
        clip(trim_ws(os[i]), 20)
    } else {
        clip(trim_ws(os[i]), 20) + seq!['|'] + options_text(os, i + 1)
    }
}

pub open spec fn options_view(os: Seq<String>) -> Seq<Seq<char>> {
    Seq::new(os.len(), |i: int| os[i]@)
}

/// The summary body of one interactive element, without its identifier.
pub open spec fn cand_body(n: DomNode) -> Seq<char> {
    if n.kind == ElementKind::Anchor {
        " link \""@ + clip(trim_ws(n.text@), 60) + seq!['"']
    } else if n.kind == ElementKind::Button {
        " button \""@ + clip(trim_ws(n.text@), 60) + seq!['"']
    } else if n.kind == ElementKind::Input || n.kind == ElementKind::TextArea {
        let tag = if n.kind == ElementKind::Input {
            " input type="@
        } else {
            " textarea type="@
        };
        tag + (if n.input_type@.len() == 0 {
            "text"@
        } else {
            n.input_type@
        }) + " placeholder=\""@ + n.placeholder@ + seq!['"'] + (if n.name@.len() > 0 {
            " name="@ + n.name@
        } else {
            Seq::empty()
        }) + (if n.value@.len() > 0 {
            " value=\""@ + clip(n.value@, 30) + seq!['"']
        } else {
            Seq::empty()
        })
    } else {
        " select ["@ + options_text(options_view(n.options@), 0) + seq![']']
    }
}

/// Whether a non-interactive element's text is emitted: trimmed length
/// in the window, and no children.
pub open spec fn text_eligible(n: DomNode) -> bool {
    let t = trim_ws(n.text@);
    t.len() > 2 && t.len() < 200 && n.children@.len() == 0
}

/// The emitted line of a non-interactive leaf text.
pub open spec fn text_line(n: DomNode) -> Seq<char> {
    "  \""@ + clip(trim_ws(n.text@), 100) + seq!['"']
}

/// What one visited element contributes before its children: an
/// interactive candidate, a text candidate, or nothing.
pub open spec fn emitted(n: DomNode) -> Seq<(bool, Seq<char>)> {
    if interactive_kind(n.kind) {
        seq![(true, cand_body(n))]
    } else if text_eligible(n) {
        seq![(false, text_line(n))]
    } else {
        Seq::empty()
    }
}

/// The bounded depth of the traversal.
pub open spec fn max_depth() -> int {
    15
}

/// The candidates contributed by the children of `n`, visited at `depth`.
pub open spec fn flat_node(n: DomNode, depth: int) -> Seq<(bool, Seq<char>)>
    decreases 16 - depth, 2int, 0int,
{
    if depth > max_depth() {
        Seq::empty()
    } else {
        flat_children(n.children@, 0, depth)
    }
}

pub open spec fn flat_children(cs: Seq<DomNode>, i: int, depth: int) -> Seq<(bool, Seq<char>)>
    decreases 16 - depth, 1int, cs.len() - i,
{
    if depth > max_depth() || i < 0 || i >= cs.len() {
        Seq::empty()
    } else {
        flat_one(cs[i], depth) + flat_children(cs, i + 1, depth)
    }
}

/// One child: skipped kinds and invisible elements contribute nothing
/// and are not descended into.
pub open spec fn flat_one(c: DomNode, depth: int) -> Seq<(bool, Seq<char>)>
    decreases 16 - depth, 0int, 0int,
{
    if depth > max_depth() {
        Seq::empty()
    } else if skipped_kind(c.kind) || !c.visible {
        Seq::empty()
    } else {
        emitted(c) + flat_node(c, depth + 1)
    }
}

/// One candidate produced by the traversal: interactive or text, with
/// its body.
pub struct Candidate {
    pub interactive: bool,
    pub body: String,
}

pub open spec fn cands_view(v: Seq<Candidate>) -> Seq<(bool, Seq<char>)> {
    Seq::new(v.len(), |i: int| (v[i].interactive, v[i].body@))
}

// ===== executable traversal =====

fn clip_chars(v: &Vec<char>, n: usize) -> (r: Vec<char>)
    ensures
        r@ == clip(v@, n as int),
{
    let end = if v.len() <= n {
        v.len()
    } else {
        n
    };
    let mut r: Vec<char> = Vec::new();
    let mut k: usize = 0;
    while k < end
        invariant
            end <= v@.len(),
            k <= end,
            r@ == v@.take(end as int).take(k as int),
        decreases end - k,
    {
        r.push(v[k]);
        assert(r@ =~= v@.take(end as int).take(k as int + 1));
        k = k + 1;
    }
    proof {
        assert(v@.take(end as int).take(end as int) =~= v@.take(end as int));
        if v@.len() <= n {
            assert(v@.take(end as int) =~= v@);
        }
    }
    r
}

fn ws_char(c: char) -> (r: bool)
    ensures
        r == is_ws(c),
{
    c == ' ' || c == '\n' || c == '\r' || c == '\t'
}

/// The trimmed characters of a string.
fn trimmed_chars(s: &str) -> (r: Vec<char>)
    ensures
        r@ == trim_ws(s@),
{
    let cs = chars_of(s);
    let mut lo: usize = 0;
    let mut hi: usize = cs.len();
    assert(cs@.subrange(0, cs@.len() as int) =~= cs@);
    let ghost w0 = cs@.subrange(lo as int, hi as int);
    while lo < hi && ws_char(cs[lo])
        invariant
            lo <= hi <= cs@.len(),
            drop_leading_ws(w0) == drop_leading_ws(cs@.subrange(lo as int, hi as int)),
        decreases hi - lo,
    {
        assert(cs@.subrange(lo as int, hi as int).skip(1) =~= cs@.subrange(
            lo as int + 1,
            hi as int,
        ));
        lo = lo + 1;
    }
    assert(drop_leading_ws(w0) == cs@.subrange(lo as int, hi as int));
    let ghost w1 = cs@.subrange(lo as int, hi as int);
    while hi > lo && ws_char(cs[hi - 1])
        invariant
            lo <= hi <= cs@.len(),
            drop_trailing_ws(w1) == drop_trailing_ws(cs@.subrange(lo as int, hi as int)),
        decreases hi - lo,
    {
        assert(cs@.subrange(lo as int, hi as int).drop_last() =~= cs@.subrange(
            lo as int,
            hi as int - 1,
        ));
        hi = hi - 1;
    }
    assert(drop_trailing_ws(w1) == cs@.subrange(lo as int, hi as int));
    let mut r: Vec<char> = Vec::new();
    let mut k = lo;
    while k < hi
        invariant
            lo <= k <= hi <= cs@.len(),
            r@ == cs@.subrange(lo as int, k as int),
        decreases hi - k,
    {
        r.push(cs[k]);
        assert(r@ =~= cs@.subrange(lo as int, k as int + 1));
        k = k + 1;
    }
    assert(r@ == trim_ws(s@));
    r
}

fn push_str_chars(out: &mut Vec<char>, s: &str)
    ensures
        final(out)@ == old(out)@ + s@,
{
    let mut v = chars_of(s);
    out.append(&mut v);
}

/// The summary body of one interactive element.
fn build_cand_body(n: &DomNode) -> (r: Vec<char>)
    requires
        interactive_kind(n.kind),
    ensures
        r@ == cand_body(*n),
{
    let mut buf: Vec<char> = Vec::new();
    match n.kind {
        ElementKind::Anchor => {
            push_str_chars(&mut buf, " link \"");
            let t = trimmed_chars(n.text.as_str());
            let mut c = clip_chars(&t, 60);
            buf.append(&mut c);
            buf.push('"');
            assert(buf@ =~= cand_body(*n));
        },
        ElementKind::Button => {
            push_str_chars(&mut buf, " button \"");
            let t = trimmed_chars(n.text.as_str());
            let mut c = clip_chars(&t, 60);
            buf.append(&mut c);
            buf.push('"');
            assert(buf@ =~= cand_body(*n));
        },
        ElementKind::Select => {
            push_str_chars(&mut buf, " select [");
            let ghost ov = options_view(n.options@);
            let count = n.options.len();
            let mut i: usize = 0;
            while i < count
                invariant
                    count == n.options@.len(),
                    ov == options_view(n.options@),
                    i <= count,
                    buf@ + options_text(ov, i as int) == " select ["@ + options_text(ov, 0),
                decreases count - i,
            {
                let t = trimmed_chars(n.options[i].as_str());
                let mut c = clip_chars(&t, 20);
                buf.append(&mut c);
                if i + 1 < count {
                    buf.push('|');
                }
                proof {
                    assert(ov[i as int] == n.options@[i as int]@);
                    assert(buf@ + options_text(ov, i as int + 1) =~= " select ["@ + options_text(
                        ov,
                        0,
                    ));
                }
                i = i + 1;
            }
            assert(options_text(ov, i as int) =~= Seq::<char>::empty());
            buf.push(']');
            assert(buf@ =~= cand_body(*n));
        },
        _ => {
            if matches!(n.kind, ElementKind::Input) {
                push_str_chars(&mut buf, " input type=");
            } else {
                push_str_chars(&mut buf, " textarea type=");
            }
            if n.input_type.as_str().unicode_len() == 0 {
                push_str_chars(&mut buf, "text");
            } else {
                push_str_chars(&mut buf, n.input_type.as_str());
            }
            push_str_chars(&mut buf, " placeholder=\"");
            push_str_chars(&mut buf, n.placeholder.as_str());
            buf.push('"');
            if n.name.as_str().unicode_len() > 0 {
                push_str_chars(&mut buf, " name=");
                push_str_chars(&mut buf, n.name.as_str());
            }
            if n.value.as_str().unicode_len() > 0 {
                push_str_chars(&mut buf, " value=\"");
                let vv = chars_of(n.value.as_str());
                let mut c = clip_chars(&vv, 30);
                buf.append(&mut c);
                buf.push('"');
            }
            assert(buf@ =~= cand_body(*n));
        },
    }
    buf
}

/// Whether a leaf text is emitted, and its line.
fn build_text_line(n: &DomNode) -> (r: Option<Vec<char>>)
    ensures
        match r {
            Some(v) => text_eligible(*n) && v@ == text_line(*n),
            None => !text_eligible(*n),
        },
{
    let t = trimmed_chars(n.text.as_str());
    if t.len() > 2 && t.len() < 200 && n.children.len() == 0 {
        let mut buf: Vec<char> = Vec::new();
        push_str_chars(&mut buf, "  \"");
        let mut c = clip_chars(&t, 100);
        buf.append(&mut c);
        buf.push('"');
        assert(buf@ =~= text_line(*n));
        Some(buf)
    } else {
        None
    }
}

fn kind_is_interactive(k: ElementKind) -> (r: bool)
    ensures
        r == interactive_kind(k),
{
    matches!(
        k,
        ElementKind::Anchor | ElementKind::Button | ElementKind::Input | ElementKind::TextArea
            | ElementKind::Select
    )
}

fn kind_is_skipped(k: ElementKind) -> (r: bool)
    ensures
        r == skipped_kind(k),
{
    matches!(
        k,
        ElementKind::Script | ElementKind::Style | ElementKind::NoScript | ElementKind::Svg
            | ElementKind::ResourceLink
    )
}

/// Visit the children of `n` at `depth`, appending their candidates in
/// traversal order.
fn collect(n: &DomNode, depth: u64, out: &mut Vec<Candidate>)
    requires
        depth <= 16,
    ensures
        cands_view(final(out)@) == cands_view(old(out)@) + flat_node(*n, depth as int),
    decreases 16 - depth,
{
    if depth > 15 {
        assert(cands_view(final(out)@) =~= cands_view(old(out)@) + flat_node(
            *n,
            depth as int,
        ));
        return ;
    }
    let ghost cs = n.children@;
    let count = n.children.len();
    let mut i: usize = 0;
    while i < count
        invariant
            depth <= 15,
            count == n.children@.len(),
            cs == n.children@,
            i <= count,
            cands_view(out@) + flat_children(cs, i as int, depth as int) == cands_view(
                old(out)@,
            ) + flat_node(*n, depth as int),
        decreases count - i,
    {
        let child = &n.children[i];
        let ghost before = cands_view(out@);
        if !kind_is_skipped(child.kind) && child.visible {
            if kind_is_interactive(child.kind) {
                let body = build_cand_body(child);
                out.push(Candidate { interactive: true, body: string_from_chars(&body) });
                assert(cands_view(out@) =~= before + emitted(*child));
            } else {
                match build_text_line(child) {
                    Some(line) => {
                        out.push(
                            Candidate { interactive: false, body: string_from_chars(&line) },
                        );
                        assert(cands_view(out@) =~= before + emitted(*child));
                    },
                    None => {
                        assert(cands_view(out@) =~= before + emitted(*child));
                    },
                }
            }
            let ghost mid = cands_view(out@);
            collect(child, depth + 1, out);
            proof {
                assert(cands_view(out@) == mid + flat_node(*child, depth as int + 1));
                assert(cands_view(out@) =~= before + flat_one(cs[i as int], depth as int));
            }
        } else {
            assert(flat_one(cs[i as int], depth as int) =~= Seq::<(bool, Seq<char>)>::empty());
            assert(cands_view(out@) =~= before + flat_one(cs[i as int], depth as int));
        }
        proof {
            assert(cands_view(out@) + flat_children(cs, i as int + 1, depth as int)
                =~= before + flat_children(cs, i as int, depth as int));
        }
        i = i + 1;
    }
    assert(flat_children(cs, count as int, depth as int) =~= Seq::<(bool, Seq<char>)>::empty());
    assert(cands_view(out@) =~= cands_view(old(out)@) + flat_node(*n, depth as int));
}


// ===== identifier assignment and duplicate suppression =====

/// The full line of an interactive element: its stamped identifier and
/// its summary body.
pub open spec fn render_line(id: nat, body: Seq<char>) -> Seq<char> {
    seq!['[', 'e'] + dec_digits(id) + seq![']'] + body
}

/// The identifiers 0, 1, ..., n-1 in order.
pub open spec fn idrange(n: nat) -> Seq<nat> {
    Seq::new(n, |j: int| j as nat)
}

pub open spec fn texts_of(acc: Seq<(Option<nat>, Seq<char>)>) -> Seq<Seq<char>> {
    Seq::new(acc.len(), |i: int| acc[i].1)
}

/// The identifiers of the emitted interactive lines, in emission order.
pub open spec fn ids_of(acc: Seq<(Option<nat>, Seq<char>)>) -> Seq<nat>
    decreases acc.len(),
{
    if acc.len() == 0 {
        Seq::empty()
    } else {
        ids_of(acc.drop_last()) + (match acc.last().0 {
            Some(id) => seq![id],
            None => Seq::empty(),
        })
    }
}

/// Walk the candidates: every interactive element consumes the next
/// identifier; a line equal to an already emitted one is suppressed.
pub open spec fn assign(
    cands: Seq<(bool, Seq<char>)>,
    i: int,
    next_id: nat,
    acc: Seq<(Option<nat>, Seq<char>)>,
) -> Seq<(Option<nat>, Seq<char>)>
    decreases cands.len() - i,
{
    if i < 0 || i >= cands.len() {
        acc
    } else {
        let inter = cands[i].0;
        let body = cands[i].1;
        if inter {
            let line = render_line(next_id, body);
            if texts_of(acc).contains(line) {
                assign(cands, i + 1, next_id + 1, acc)
            } else {
                assign(cands, i + 1, next_id + 1, acc.push((Some(next_id), line)))
            }
        } else {
            if texts_of(acc).contains(body) {
                assign(cands, i + 1, next_id, acc)
            } else {
                assign(cands, i + 1, next_id, acc.push((None, body)))
            }
        }
    }
}

/// The identifier after processing the candidates from `i` on.
pub open spec fn id_after(cands: Seq<(bool, Seq<char>)>, i: int, next_id: nat) -> nat
    decreases cands.len() - i,
{
    if i < 0 || i >= cands.len() {
        next_id
    } else if cands[i].0 {
        id_after(cands, i + 1, next_id + 1)
    } else {
        id_after(cands, i + 1, next_id)
    }
}

/// The emitted snapshot entries of a whole page tree.
pub open spec fn snapshot_entries(root: DomNode) -> Seq<(Option<nat>, Seq<char>)> {
    assign(flat_node(root, 0), 0, 0, Seq::empty())
}

// ===== the identifier law =====

proof fn lemma_render_inj(a: nat, b1: Seq<char>, c: nat, b2: Seq<char>)
    requires
        render_line(a, b1) == render_line(c, b2),
    ensures
        a == c,
{
    let da = dec_digits(a);
    let dc = dec_digits(c);
    lemma_dec_digits_shape(a);
    lemma_dec_digits_shape(c);
    let s = render_line(a, b1);
    assert(forall|k: int| 0 <= k < da.len() ==> s[2 + k] == da[k]);
    assert(forall|k: int| 0 <= k < dc.len() ==> s[2 + k] == dc[k]);
    assert(s[2 + da.len() as int] == ']');
    assert(s[2 + dc.len() as int] == ']');
    if da.len() < dc.len() {
        assert(s[2 + da.len() as int] == dc[da.len() as int]);
        assert(is_digit(dc[da.len() as int]));
        assert(false);
    } else if dc.len() < da.len() {
        assert(s[2 + dc.len() as int] == da[dc.len() as int]);
        assert(is_digit(da[dc.len() as int]));
        assert(false);
    } else {
        assert(da =~= dc);
        lemma_dec_digits_injective(a, c);
    }
}

/// Every entry carries either a rendered identifier line below the
/// bound, or a text line opening with a blank.
spec fn entry_ok(e: (Option<nat>, Seq<char>), bound: nat) -> bool {
    match e.0 {
        Some(id) => id < bound && (exists|b: Seq<char>| e.1 == render_line(id, b)),
        None => e.1.len() > 0 && e.1[0] == ' ',
    }
}

spec fn good_acc(acc: Seq<(Option<nat>, Seq<char>)>, next_id: nat) -> bool {
    &&& ids_of(acc) == idrange(next_id)
    &&& forall|j: int| 0 <= j < acc.len() ==> entry_ok(#[trigger] acc[j], next_id)
}

/// Non-interactive candidates carry whole text lines, which open with a
/// blank.
spec fn texts_shaped(s: Seq<(bool, Seq<char>)>) -> bool {
    forall|j: int|
        0 <= j < s.len() && !(#[trigger] s[j]).0 ==> s[j].1.len() > 0 && s[j].1[0] == ' '
}

proof fn lemma_texts_shaped_concat(a: Seq<(bool, Seq<char>)>, b: Seq<(bool, Seq<char>)>)
    requires
        texts_shaped(a),
        texts_shaped(b),
    ensures
        texts_shaped(a + b),
{
    assert forall|j: int|
        0 <= j < (a + b).len() && !(#[trigger] (a + b)[j]).0 implies (a + b)[j].1.len() > 0
        && (a + b)[j].1[0] == ' ' by {
        if j < a.len() {
            assert((a + b)[j] == a[j]);
        } else {
            assert((a + b)[j] == b[j - a.len()]);
        }
    }
}

proof fn lemma_shape_node(n: DomNode, depth: int)
    ensures
        texts_shaped(flat_node(n, depth)),
    decreases 16 - depth, 2int, 0int,
{
    if depth <= max_depth() {
        lemma_shape_children(n.children@, 0, depth);
    }
}

proof fn lemma_shape_children(cs: Seq<DomNode>, i: int, depth: int)
    ensures
        texts_shaped(flat_children(cs, i, depth)),
    decreases 16 - depth, 1int, cs.len() - i,
{
    if !(depth > max_depth() || i < 0 || i >= cs.len()) {
        lemma_shape_one(cs[i], depth);
        lemma_shape_children(cs, i + 1, depth);
        lemma_texts_shaped_concat(flat_one(cs[i], depth), flat_children(cs, i + 1, depth));
    }
}

proof fn lemma_shape_one(c: DomNode, depth: int)
    ensures
        texts_shaped(flat_one(c, depth)),
    decreases 16 - depth, 0int, 0int,
{
    if depth <= max_depth() && !(skipped_kind(c.kind) || !c.visible) {
        reveal_strlit("  \"");
        assert(texts_shaped(emitted(c))) by {
            if !interactive_kind(c.kind) && text_eligible(c) {
                assert(text_line(c)[0] == ' ');
            }
        }
        lemma_shape_node(c, depth + 1);
        lemma_texts_shaped_concat(emitted(c), flat_node(c, depth + 1));
    }
}

proof fn lemma_assign_good(
    cands: Seq<(bool, Seq<char>)>,
    i: int,
    next_id: nat,
    acc: Seq<(Option<nat>, Seq<char>)>,
)
    requires
        good_acc(acc, next_id),
        texts_shaped(cands),
        0 <= i,
    ensures
        good_acc(assign(cands, i, next_id, acc), id_after(cands, i, next_id)),
    decreases cands.len() - i,
{
    if i >= cands.len() {
    } else {
        let inter = cands[i].0;
        let body = cands[i].1;
        if inter {
            let line = render_line(next_id, body);
            assert(line[0] == '[');
            assert(!texts_of(acc).contains(line)) by {
                if texts_of(acc).contains(line) {
                    let k = choose|k: int|
                        0 <= k < texts_of(acc).len() && texts_of(acc)[k] == line;
                    assert(entry_ok(acc[k], next_id));
                    match acc[k].0 {
                        Some(id) => {
                            let b = choose|b: Seq<char>| acc[k].1 == render_line(id, b);
                            lemma_render_inj(id, b, next_id, body);
                            assert(false);
                        },
                        None => {
                            assert(acc[k].1[0] == ' ');
                            assert(false);
                        },
                    }
                }
            }
            let acc2 = acc.push((Some(next_id), line));
            assert(ids_of(acc2) == idrange(next_id + 1)) by {
                assert(acc2.drop_last() =~= acc);
                assert(acc2.last() == (Some(next_id as nat), line));
                assert(ids_of(acc2) =~= idrange(next_id) + seq![next_id]);
                assert(idrange(next_id) + seq![next_id] =~= idrange(next_id + 1));
            }
            assert(forall|j: int| 0 <= j < acc2.len() ==> entry_ok(#[trigger] acc2[j], next_id + 1))
                by {
                assert forall|j: int| 0 <= j < acc2.len() implies entry_ok(
                    #[trigger] acc2[j],
                    next_id + 1,
                ) by {
                    if j < acc.len() {
                        assert(acc2[j] == acc[j]);
                        assert(entry_ok(acc[j], next_id));
                    } else {
                        assert(acc2[j] == (Some(next_id as nat), line));
                        assert(line == render_line(next_id, body));
                    }
                }
            }
            lemma_assign_good(cands, i + 1, next_id + 1, acc2);
        } else {
            if texts_of(acc).contains(body) {
                lemma_assign_good(cands, i + 1, next_id, acc);
            } else {
                let acc2 = acc.push((None, body));
                assert(ids_of(acc2) == idrange(next_id)) by {
                    assert(acc2.drop_last() =~= acc);
                    assert(ids_of(acc2) =~= ids_of(acc));
                }
                assert(forall|j: int|
                    0 <= j < acc2.len() ==> entry_ok(#[trigger] acc2[j], next_id)) by {
                    assert forall|j: int| 0 <= j < acc2.len() implies entry_ok(
                        #[trigger] acc2[j],
                        next_id,
                    ) by {
                        if j < acc.len() {
                            assert(acc2[j] == acc[j]);
                        } else {
                            assert(acc2[j] == (None::<nat>, body));
                            assert(!cands[i].0);
                            assert(body.len() > 0 && body[0] == ' ');
                        }
                    }
                }
                lemma_assign_good(cands, i + 1, next_id, acc2);
            }
        }
    }
}

/// Law: within one snapshot, the emitted interactive-element identifiers
/// are exactly 0, 1, 2, ... in traversal order: unique, strictly
/// increasing, starting at 0.
pub proof fn lemma_snapshot_ids(root: DomNode)
    ensures
        ({
            let ids = ids_of(snapshot_entries(root));
            &&& ids == idrange(ids.len())
            &&& forall|j1: int, j2: int|
                0 <= j1 < j2 < ids.len() ==> #[trigger] ids[j1] < #[trigger] ids[j2]
            &&& ids.len() > 0 ==> ids[0] == 0
        }),
{
    let cands = flat_node(root, 0);
    lemma_shape_node(root, 0);
    assert(good_acc(Seq::empty(), 0)) by {
        assert(ids_of(Seq::<(Option<nat>, Seq<char>)>::empty()) =~= Seq::<nat>::empty());
        assert(idrange(0) =~= Seq::<nat>::empty());
    }
    lemma_assign_good(cands, 0, 0, Seq::empty());
    let ids = ids_of(snapshot_entries(root));
    assert(ids == idrange(id_after(cands, 0, 0)));
    assert(ids.len() == id_after(cands, 0, 0));
    assert(ids =~= idrange(ids.len()));
}

// ===== joining and the character budget =====

/// The emitted lines joined with newlines.
pub open spec fn joined(lines: Seq<Seq<char>>, i: int) -> Seq<char>
    decreases lines.len() - i,
{
    if i < 0 || i >= lines.len() {
        Seq::empty()
    } else if i + 1 == lines.len() {
        lines[i]
    } else {
        lines[i] + seq!['\n'] + joined(lines, i + 1)
    }
}

/// The marker appended when the snapshot is cut at the budget: it names
/// the exact untruncated length.
pub open spec fn truncation_marker(n: nat) -> Seq<char> {
    "\n... [truncated, "@ + dec_digits(n) + " total chars]"@
}

/// The snapshot text held to the character budget: a longer text is cut
/// so that, marker included, the budget is never exceeded.
pub open spec fn truncated_snapshot(s: Seq<char>) -> Seq<char> {
    if s.len() <= DOM_SNAPSHOT_MAX_CHARS {
        s
    } else {
        let m = truncation_marker(s.len());
        s.take(DOM_SNAPSHOT_MAX_CHARS - m.len()) + m
    }
}

pub open spec fn pow10(k: nat) -> nat
    decreases k,
{
    if k == 0 {
        1
    } else {
        10 * pow10((k - 1) as nat)
    }
}

proof fn lemma_dec_digits_len_le(n: nat, k: nat)
    requires
        k >= 1,
        n < pow10(k),
    ensures
        dec_digits(n).len() <= k,
    decreases k,
{
    if n < 10 {
    } else {
        assert(k >= 2) by {
            reveal_with_fuel(pow10, 3);
        }
        assert(n / 10 < pow10((k - 1) as nat)) by {
            assert(pow10(k) == 10 * pow10((k - 1) as nat));
        }
        lemma_dec_digits_len_le(n / 10, (k - 1) as nat);
    }
}

/// The marker of any machine-representable length is far below the
/// budget.
proof fn lemma_marker_short(n: nat)
    requires
        n <= u64::MAX,
    ensures
        truncation_marker(n).len() <= 50,
{
    reveal_strlit("\n... [truncated, ");
    reveal_strlit(" total chars]");
    assert(u64::MAX < pow10(20)) by {
        reveal_with_fuel(pow10, 21);
    }
    lemma_dec_digits_len_le(n, 20);
}

/// Law: the snapshot never exceeds the configured character budget, and
/// when the untruncated text is longer, the output ends with the
/// truncation marker naming the exact original length.
pub proof fn lemma_snapshot_budget(s: Seq<char>)
    requires
        s.len() <= u64::MAX,
    ensures
        truncated_snapshot(s).len() <= DOM_SNAPSHOT_MAX_CHARS,
        s.len() > DOM_SNAPSHOT_MAX_CHARS ==> ({
            let m = truncation_marker(s.len());
            let t = truncated_snapshot(s);
            t.len() >= m.len() && t.skip(t.len() - m.len()) == m
        }),
{
    if s.len() > DOM_SNAPSHOT_MAX_CHARS {
        lemma_marker_short(s.len());
        let m = truncation_marker(s.len());
        let t = truncated_snapshot(s);
        assert(t.skip(t.len() - m.len()) =~= m);
    }
}

// ===== executable assembly =====

pub open spec fn lines_view(v: Seq<String>) -> Seq<Seq<char>> {
    Seq::new(v.len(), |i: int| v[i]@)
}

fn contains_string(v: &Vec<String>, s: &String) -> (r: bool)
    ensures
        r == lines_view(v@).contains(s@),
{
    let mut i: usize = 0;
    while i < v.len()
        invariant
            i <= v@.len(),
            forall|k: int| 0 <= k < i ==> lines_view(v@)[k] != s@,
        decreases v@.len() - i,
    {
        if v[i].eq(s) {
            assert(lines_view(v@)[i as int] == s@);
            return true;
        }
        i = i + 1;
    }
    assert(!lines_view(v@).contains(s@));
    false
}

/// Assign identifiers and suppress duplicate lines.
pub fn assign_lines(cands: &Vec<Candidate>) -> (r: Vec<String>)
    ensures
        lines_view(r@) == texts_of(
            assign(cands_view(cands@), 0, 0, Seq::empty()),
        ),
{
    let ghost cv = cands_view(cands@);
    let mut lines: Vec<String> = Vec::new();
    let mut next_id: usize = 0;
    let ghost mut gacc: Seq<(Option<nat>, Seq<char>)> = Seq::empty();
    proof {
        assert(texts_of(gacc) =~= Seq::<Seq<char>>::empty());
        assert(lines_view(lines@) =~= texts_of(gacc));
    }
    let mut i: usize = 0;
    while i < cands.len()
        invariant
            cv == cands_view(cands@),
            i <= cands@.len(),
            next_id <= i,
            lines_view(lines@) == texts_of(gacc),
            assign(cv, 0, 0, Seq::empty()) == assign(cv, i as int, next_id as nat, gacc),
        decreases cands@.len() - i,
    {
        let c = &cands[i];
        if c.interactive {
            let mut buf: Vec<char> = Vec::new();
            buf.push('[');
            buf.push('e');
            push_decimal(&mut buf, next_id as u64);
            buf.push(']');
            let mut body = chars_of(c.body.as_str());
            buf.append(&mut body);
            assert(buf@ =~= render_line(next_id as nat, c.body@));
            let line = string_from_chars(&buf);
            if !contains_string(&lines, &line) {
                let ghost lines0 = lines@;
                let ghost g0 = gacc;
                lines.push(line);
                proof {
                    gacc = g0.push((Some(next_id as nat), buf@));
                    assert(lines@ == lines0.push(line));
                    assert(line@ == buf@);
                    assert(lines_view(lines0) == texts_of(g0));
                    assert(lines_view(lines0).len() == lines0.len());
                    assert(texts_of(g0).len() == g0.len());
                    assert(lines@.len() == gacc.len());
                    assert forall|k: int| 0 <= k < lines@.len() implies lines_view(lines@)[k]
                        == texts_of(gacc)[k] by {
                        if k < lines0.len() {
                            assert(lines@[k] == lines0[k]);
                            assert(gacc[k] == g0[k]);
                            assert(lines_view(lines0)[k] == texts_of(g0)[k]);
                        } else {
                            assert(lines@[k] == line);
                            assert(gacc[k] == (Some(next_id as nat), buf@));
                        }
                    }
                    assert(lines_view(lines@) =~= texts_of(gacc));
                }
            }
            next_id = next_id + 1;
        } else {
            let line = c.body.clone();
            assert(line@ == cv[i as int].1);
            if !contains_string(&lines, &line) {
                let ghost lines0 = lines@;
                let ghost g0 = gacc;
                lines.push(line);
                proof {
                    gacc = g0.push((None, c.body@));
                    assert(lines@ == lines0.push(line));
                    assert(line@ == c.body@);
                    assert(lines_view(lines0) == texts_of(g0));
                    assert(lines_view(lines0).len() == lines0.len());
                    assert(texts_of(g0).len() == g0.len());
                    assert(lines@.len() == gacc.len());
                    assert forall|k: int| 0 <= k < lines@.len() implies lines_view(lines@)[k]
                        == texts_of(gacc)[k] by {
                        if k < lines0.len() {
                            assert(lines@[k] == lines0[k]);
                            assert(gacc[k] == g0[k]);
                            assert(lines_view(lines0)[k] == texts_of(g0)[k]);
                        } else {
                            assert(lines@[k] == line);
                            assert(gacc[k] == (None::<nat>, c.body@));
                        }
                    }
                    assert(lines_view(lines@) =~= texts_of(gacc));
                }
            }
        }
        i = i + 1;
    }
    lines
}

fn join_lines(lines: &Vec<String>) -> (r: Vec<char>)
    ensures
        r@ == joined(lines_view(lines@), 0),
{
    let mut buf: Vec<char> = Vec::new();
    let ghost lv = lines_view(lines@);
    let mut i: usize = 0;
    while i < lines.len()
        invariant
            lv == lines_view(lines@),
            i <= lines@.len(),
            buf@ + joined(lv, i as int) == joined(lv, 0),
        decreases lines@.len() - i,
    {
        push_str_chars(&mut buf, lines[i].as_str());
        if i + 1 < lines.len() {
            buf.push('\n');
        }
        proof {
            assert(buf@ + joined(lv, i as int + 1) =~= joined(lv, 0));
        }
        i = i + 1;
    }
    assert(joined(lv, i as int) =~= Seq::<char>::empty());
    assert(buf@ =~= joined(lv, 0));
    buf
}

/// Hold a snapshot text to the character budget, marking a cut with the
/// exact original length.
pub fn truncate_to_budget(text: &Vec<char>) -> (r: Vec<char>)
    ensures
        r@ == truncated_snapshot(text@),
        r@.len() <= DOM_SNAPSHOT_MAX_CHARS,
{
    if text.len() <= DOM_SNAPSHOT_MAX_CHARS {
        let mut out: Vec<char> = Vec::new();
        let mut k: usize = 0;
        while k < text.len()
            invariant
                k <= text@.len(),
                out@ == text@.take(k as int),
            decreases text@.len() - k,
        {
            out.push(text[k]);
            assert(out@ =~= text@.take(k as int + 1));
            k = k + 1;
        }
        assert(text@.take(text@.len() as int) =~= text@);
        out
    } else {
        let mut marker: Vec<char> = Vec::new();
        push_str_chars(&mut marker, "\n... [truncated, ");
        push_decimal(&mut marker, text.len() as u64);
        push_str_chars(&mut marker, " total chars]");
        assert(marker@ =~= truncation_marker(text@.len()));
        proof {
            lemma_marker_short(text@.len());
        }
        let keep = DOM_SNAPSHOT_MAX_CHARS - marker.len();
        let mut out: Vec<char> = Vec::new();
        let mut k: usize = 0;
        while k < keep
            invariant
                keep <= text@.len(),
                k <= keep,
                out@ == text@.take(keep as int).take(k as int),
            decreases keep - k,
        {
            out.push(text[k]);
            assert(out@ =~= text@.take(keep as int).take(k as int + 1));
            k = k + 1;
        }
        assert(text@.take(keep as int).take(keep as int) =~= text@.take(keep as int));
        out.append(&mut marker);
        assert(out@ =~= truncated_snapshot(text@));
        out
    }
}

/// Encode one modeled page tree as the bounded snapshot text.
pub fn capture_dom_snapshot(root: &DomNode) -> (r: String)
    ensures
        r@ == truncated_snapshot(joined(texts_of(snapshot_entries(*root)), 0)),
        r@.len() <= DOM_SNAPSHOT_MAX_CHARS,
{
    let mut cands: Vec<Candidate> = Vec::new();
    collect(root, 0, &mut cands);
    proof {
        assert(cands_view(Seq::<Candidate>::empty()) =~= Seq::<(bool, Seq<char>)>::empty());
        assert(cands_view(cands@) =~= flat_node(*root, 0));
    }
    let lines = assign_lines(&cands);
    let text = join_lines(&lines);
    let bounded = truncate_to_budget(&text);
    string_from_chars(&bounded)
}

} // verus!
