//! The inline tool-call convention of models without native function calling:
//! a JSON object `{name, arguments}` between `[TOOL_REQUEST]` and
//! `[END_TOOL_REQUEST]` in the text. The filter keeps such regions out of
//! the visible text and hands out the calls they hold. It reads one character
//! at a time, so the way the text is cut into chunks does not matter.
use vstd::prelude::*;

use crate::json::{decode_json, decoded_json, encode_json, encoded_json, field, text_field, JsonValue};
use crate::providers::FunctionCall;
use crate::text::{chars_of, matches_at, push_char};

verus! {

/// The tag that opens a tool region.
pub open spec fn open_tag() -> Seq<char> {
    seq!['[', 'T', 'O', 'O', 'L', '_', 'R', 'E', 'Q', 'U', 'E', 'S', 'T', ']']
}

/// The tag that closes a tool region.
pub open spec fn close_tag() -> Seq<char> {
    seq!['[', 'E', 'N', 'D', '_', 'T', 'O', 'O', 'L', '_', 'R', 'E', 'Q', 'U', 'E', 'S', 'T', ']']
}

/// The tags as written in text.
pub proof fn lemma_tag_literals()
    ensures
        "[TOOL_REQUEST]"@ == open_tag(),
        "[END_TOOL_REQUEST]"@ == close_tag(),
{
    reveal_strlit("[TOOL_REQUEST]");
    reveal_strlit("[END_TOOL_REQUEST]");
    assert("[TOOL_REQUEST]"@ =~= open_tag());
    assert("[END_TOOL_REQUEST]"@ =~= close_tag());
}

/// Whether `p` is a prefix of `s`.
pub open spec fn is_prefix(p: Seq<char>, s: Seq<char>) -> bool {
    p.len() <= s.len() && s.subrange(0, p.len() as int) == p
}

/// Whether `s` ends with `t`.
pub open spec fn ends_with(s: Seq<char>, t: Seq<char>) -> bool {
    t.len() <= s.len() && s.subrange(s.len() - t.len(), s.len() as int) == t
}

/// Whether `p` is the start of tag `t`, character for character.
pub open spec fn starts(p: Seq<char>, t: Seq<char>) -> bool {
    p.len() <= t.len() && forall|i: int| 0 <= i < p.len() ==> p[i] == t[i]
}

/// Whether `p` is the start of either tag (or a whole tag).
pub open spec fn tag_prefix(p: Seq<char>) -> bool {
    starts(p, open_tag()) || starts(p, close_tag())
}

/// The filter's state. Outside a region, `held` is text not shown yet
/// because it may still turn into a tag. `vtail` is the end of the text
/// already shown that may still grow into a tag: once a region or a stray
/// closing tag is dropped, matching goes on from there, so the text on both
/// sides of what was dropped can never join into a tag. Inside a region,
/// `body` is the region read so far.
pub struct TagState {
    pub in_region: bool,
    pub held: Seq<char>,
    pub vtail: Seq<char>,
    pub body: Seq<char>,
}

/// What reading some text gives: the state after it, the visible text, and
/// the bodies of the regions that closed, in order.
pub struct TagRun {
    pub state: TagState,
    pub visible: Seq<char>,
    pub bodies: Seq<Seq<char>>,
}

/// The state before any text.
pub open spec fn start_state() -> TagState {
    TagState { in_region: false, held: Seq::empty(), vtail: Seq::empty(), body: Seq::empty() }
}

/// The text that may still become a tag: the held text when it starts a
/// tag of its own, otherwise the shown tail followed by the held text.
pub open spec fn candidate(st: TagState) -> Seq<char> {
    if st.held.len() > 0 && st.held[0] == '[' {
        st.held
    } else {
        st.vtail + st.held
    }
}

/// Reading one character.
pub open spec fn step(st: TagState, c: char) -> TagRun {
    if st.in_region {
        let b = st.body.push(c);
        if ends_with(b, close_tag()) {
            TagRun {
                state: TagState { in_region: false, held: Seq::empty(), vtail: st.vtail, body: Seq::empty() },
                visible: Seq::empty(),
                bodies: seq![b.subrange(0, b.len() - close_tag().len())],
            }
        } else {
            TagRun { state: TagState { body: b, ..st }, visible: Seq::empty(), bodies: seq![] }
        }
    } else {
        let x = candidate(st).push(c);
        if x == open_tag() {
            TagRun {
                state: TagState { in_region: true, held: Seq::empty(), vtail: st.vtail, body: Seq::empty() },
                visible: Seq::empty(),
                bodies: seq![],
            }
        } else if x == close_tag() {
            TagRun {
                state: TagState { in_region: false, held: Seq::empty(), vtail: st.vtail, body: Seq::empty() },
                visible: Seq::empty(),
                bodies: seq![],
            }
        } else if tag_prefix(x) {
            TagRun {
                state: TagState { in_region: false, held: st.held.push(c), vtail: st.vtail, body: Seq::empty() },
                visible: Seq::empty(),
                bodies: seq![],
            }
        } else if c == '[' {
            TagRun {
                state: TagState { in_region: false, held: seq!['['], vtail: candidate(st), body: Seq::empty() },
                visible: st.held,
                bodies: seq![],
            }
        } else {
            TagRun { state: start_state(), visible: st.held.push(c), bodies: seq![] }
        }
    }
}

/// Reading `s` from state `st`, one character after the other.
pub open spec fn run(st: TagState, s: Seq<char>) -> TagRun
    decreases s.len(),
{
    if s.len() == 0 {
        TagRun { state: st, visible: Seq::empty(), bodies: seq![] }
    } else {
        let before = run(st, s.drop_last());
        let last = step(before.state, s.last());
        TagRun {
            state: last.state,
            visible: before.visible + last.visible,
            bodies: before.bodies + last.bodies,
        }
    }
}

/// The call that a decoded region body holds: its `name` text and its
/// `arguments` value written as JSON text.
pub open spec fn document_call(doc: JsonValue) -> Option<(Seq<char>, Seq<char>)> {
    match (text_field(doc, "name"@), field(doc, "arguments"@)) {
        (Some(n), Some(a)) => Some((n, encoded_json(a))),
        _ => None,
    }
}

/// The call that a region body holds, when it is JSON.
pub open spec fn body_call(body: Seq<char>) -> Option<(Seq<char>, Seq<char>)> {
    match decoded_json(body) {
        Some(doc) => document_call(doc),
        None => None,
    }
}

/// The calls of the bodies that hold one, in order.
pub open spec fn body_calls(bodies: Seq<Seq<char>>) -> Seq<(Seq<char>, Seq<char>)>
    decreases bodies.len(),
{
    if bodies.len() == 0 {
        seq![]
    } else {
        match body_call(bodies.last()) {
            Some(c) => body_calls(bodies.drop_last()).push(c),
            None => body_calls(bodies.drop_last()),
        }
    }
}

/// A call as plain text.
pub open spec fn call_model(c: FunctionCall) -> (Seq<char>, Seq<char>) {
    (c.name@, c.arguments@)
}

/// Each call as plain text.
pub open spec fn call_models(cs: Seq<FunctionCall>) -> Seq<(Seq<char>, Seq<char>)> {
    cs.map_values(|c: FunctionCall| call_model(c))
}

/// Reading `a` and then `b` is reading `a + b`.
pub proof fn lemma_run_concat(st: TagState, a: Seq<char>, b: Seq<char>)
    ensures
        run(st, a + b) == (TagRun {
            state: run(run(st, a).state, b).state,
            visible: run(st, a).visible + run(run(st, a).state, b).visible,
            bodies: run(st, a).bodies + run(run(st, a).state, b).bodies,
        }),
    decreases b.len(),
{
    if b.len() == 0 {
        assert(a + b =~= a);
        assert(run(st, a).visible + Seq::<char>::empty() =~= run(st, a).visible);
        assert(run(st, a).bodies + Seq::<Seq<char>>::empty() =~= run(st, a).bodies);
    } else {
        lemma_run_concat(st, a, b.drop_last());
        assert((a + b).drop_last() =~= a + b.drop_last());
        assert((a + b).last() == b.last());
        let ra = run(st, a);
        let rb = run(ra.state, b.drop_last());
        let l = step(rb.state, b.last());
        assert(ra.visible + rb.visible + l.visible =~= ra.visible + (rb.visible + l.visible));
        assert(ra.bodies + rb.bodies + l.bodies =~= ra.bodies + (rb.bodies + l.bodies));
    }
}

/// A tool region cut into chunks at any three places is read exactly as the
/// same text in one chunk: the same visible text, the same region bodies (so
/// the same calls), and the same state afterwards.
pub proof fn lemma_chunking_invariant(a: Seq<char>, b: Seq<char>, c: Seq<char>, d: Seq<char>)
    ensures
        ({
            let r1 = run(start_state(), a);
            let r2 = run(r1.state, b);
            let r3 = run(r2.state, c);
            let r4 = run(r3.state, d);
            let whole = run(start_state(), a + b + c + d);
            &&& whole.state == r4.state
            &&& whole.visible == r1.visible + r2.visible + r3.visible + r4.visible
            &&& whole.bodies == r1.bodies + r2.bodies + r3.bodies + r4.bodies
            &&& body_calls(whole.bodies) == body_calls(r1.bodies + r2.bodies + r3.bodies + r4.bodies)
        }),
{
    let s0 = start_state();
    lemma_run_concat(s0, a, b);
    lemma_run_concat(s0, a + b, c);
    lemma_run_concat(s0, a + b + c, d);
}

/// The last `k` characters of `s`.
pub open spec fn suf(s: Seq<char>, k: int) -> Seq<char> {
    s.subrange(s.len() - k, s.len() as int)
}

/// `t` ends `s`, starts a tag (or is empty), and every end of `s` that
/// starts a tag is no longer than `t`.
pub open spec fn tail_ok(s: Seq<char>, t: Seq<char>) -> bool {
    &&& t.len() <= s.len()
    &&& suf(s, t.len() as int) == t
    &&& (t.len() == 0 || tag_prefix(t))
    &&& forall|k: int| 1 <= k <= s.len() && #[trigger] tag_prefix(suf(s, k)) ==> k <= t.len()
}

/// Whether `s` holds neither tag.
pub open spec fn tag_free(s: Seq<char>) -> bool {
    !crate::text::contains(s, open_tag()) && !crate::text::contains(s, close_tag())
}

/// The text shown so far together with the text held back.
pub open spec fn pending_text(st: TagState, shown: Seq<char>) -> Seq<char> {
    if st.in_region {
        shown
    } else {
        shown + st.held
    }
}

/// What holds of the filter after any text: the shown text with the held
/// text holds no tag, and the recorded tails are the longest ends that may
/// still grow into one.
pub open spec fn filter_inv(st: TagState, shown: Seq<char>) -> bool {
    &&& tag_free(pending_text(st, shown))
    &&& tail_ok(shown, st.vtail)
    &&& !st.in_region ==> tail_ok(shown + st.held, candidate(st))
}

proof fn lemma_tag_chars()
    ensures
        forall|i: int| 1 <= i < 14 ==> open_tag()[i] != '[',
        forall|i: int| 1 <= i < 18 ==> close_tag()[i] != '[',
        open_tag()[0] == '[' && close_tag()[0] == '[',
        open_tag()[13] == ']' && close_tag()[17] == ']',
        open_tag()[1] != close_tag()[1],
        open_tag().len() == 14 && close_tag().len() == 18,
{
}

/// A tag's start has `[` first and nowhere else.
proof fn lemma_prefix_brackets(p: Seq<char>)
    requires
        tag_prefix(p),
    ensures
        p.len() > 0 ==> p[0] == '[',
        forall|i: int| 1 <= i < p.len() ==> p[i] != '[',
        p.len() <= 18,
{
    lemma_tag_chars();
    if starts(p, open_tag()) {
        assert forall|i: int| 1 <= i < p.len() implies p[i] != '[' by {
            assert(p[i] == open_tag()[i]);
        }
    } else {
        assert forall|i: int| 1 <= i < p.len() implies p[i] != '[' by {
            assert(p[i] == close_tag()[i]);
        }
    }
}

/// A tag found in `s` after one more character is found at its very end.
proof fn lemma_new_occurrence(e: Seq<char>, c: char, t: Seq<char>)
    requires
        !crate::text::contains(e, t),
        crate::text::contains(e.push(c), t),
        t.len() > 0,
    ensures
        suf(e.push(c), t.len() as int) == t,
        t.len() <= e.len() + 1,
{
    let ec = e.push(c);
    let i = choose|i: int| crate::text::occurs_at(ec, t, i);
    if i + t.len() <= e.len() {
        assert(e.subrange(i, i + t.len()) =~= ec.subrange(i, i + t.len()));
        assert(crate::text::occurs_at(e, t, i));
    }
}

/// A whole tag starts a tag.
proof fn lemma_tags_are_prefixes()
    ensures
        tag_prefix(open_tag()),
        tag_prefix(close_tag()),
{
}

/// The ends of the text after one more character that start a tag are
/// ends of the candidate followed by that character, and only the
/// character itself can start one in the middle of it.
proof fn lemma_ends(e: Seq<char>, cand: Seq<char>, c: char, k: int)
    requires
        tail_ok(e, cand),
        1 <= k <= e.len() + 1,
        tag_prefix(suf(e.push(c), k)),
    ensures
        k <= cand.len() + 1,
        suf(e.push(c), k) == suf(cand.push(c), k),
        k < cand.len() + 1 ==> k == 1 && c == '[',
{
    let ec = e.push(c);
    let x = cand.push(c);
    let s = suf(ec, k);
    lemma_prefix_brackets(s);
    if k >= 2 {
        let d = suf(e, k - 1);
        assert(d =~= s.drop_last());
        assert(tag_prefix(d)) by {
            if starts(s, open_tag()) {
                assert(starts(d, open_tag()));
            } else {
                assert(starts(d, close_tag()));
            }
        }
        assert(k - 1 <= cand.len());
    }
    assert(suf(e, cand.len() as int) == cand);
    assert(s =~= suf(x, k)) by {
        assert forall|i: int| 0 <= i < k implies s[i] == suf(x, k)[i] by {
            if i < k - 1 {
                assert(s[i] == e[e.len() - (k - 1) + i]);
                assert(suf(x, k)[i] == cand[cand.len() - (k - 1) + i]);
                assert(cand[cand.len() - (k - 1) + i] == suf(e, cand.len() as int)[cand.len() - (k - 1) + i]);
            }
        }
    }
    if k < cand.len() + 1 && k >= 2 {
        assert(s[0] == '[');
        assert(s[0] == cand[cand.len() + 1 - k]);
        lemma_prefix_brackets(cand);
    }
    if k == 1 {
        assert(s[0] == c);
    }
}

/// Reading one character keeps the filter's invariant.
proof fn lemma_step_inv(st: TagState, shown: Seq<char>, c: char)
    requires
        filter_inv(st, shown),
    ensures
        filter_inv(step(st, c).state, shown + step(st, c).visible),
{
    lemma_tag_chars();
    lemma_tags_are_prefixes();
    let r = step(st, c);
    if st.in_region {
        assert(shown + r.visible =~= shown);
        if !r.state.in_region {
            assert(shown + r.state.held =~= shown);
            assert(candidate(r.state) =~= st.vtail);
        }
    } else {
        let e = shown + st.held;
        let cand = candidate(st);
        let x = cand.push(c);
        let ec = e.push(c);
        assert(forall|t: Seq<char>| crate::text::contains(shown, t) ==> crate::text::contains(e, t)) by {
            assert forall|t: Seq<char>| crate::text::contains(shown, t) implies crate::text::contains(e, t) by {
                let i = choose|i: int| crate::text::occurs_at(shown, t, i);
                assert(e.subrange(i, i + t.len()) =~= shown.subrange(i, i + t.len()));
                assert(crate::text::occurs_at(e, t, i));
            }
        }
        if x == open_tag() || x == close_tag() {
            assert(shown + r.visible =~= shown);
            if !r.state.in_region {
                assert(shown + r.state.held =~= shown);
                assert(candidate(r.state) =~= st.vtail);
            }
        } else {
            // No tag ends at the new character.
            assert forall|t: Seq<char>| (t == open_tag() || t == close_tag()) && !crate::text::contains(e, t)
                implies !crate::text::contains(ec, t) by {
                if crate::text::contains(ec, t) {
                    lemma_new_occurrence(e, c, t);
                    assert(tag_prefix(suf(ec, t.len() as int)));
                    lemma_ends(e, cand, c, t.len() as int);
                    assert(suf(x, t.len() as int) =~= x);
                }
            }
            if tag_prefix(x) {
                assert(shown + r.visible =~= shown);
                let ns = r.state;
                assert(shown + ns.held =~= ec);
                assert(candidate(ns) =~= x) by {
                    if st.held.len() > 0 {
                        assert(ns.held[0] == st.held[0]);
                    } else if c == '[' {
                        lemma_prefix_brackets(x);
                        if st.vtail.len() > 0 {
                            assert(x[st.vtail.len() as int] == '[');
                        }
                    }
                }
                assert forall|k: int| 1 <= k <= ec.len() && #[trigger] tag_prefix(suf(ec, k)) implies k <= x.len() by {
                    lemma_ends(e, cand, c, k);
                }
                assert(suf(ec, x.len() as int) =~= x) by {
                    assert(suf(e, cand.len() as int) == cand);
                }
            } else {
                assert forall|k: int| 1 <= k <= ec.len() && #[trigger] tag_prefix(suf(ec, k)) implies k == 1 && c == '[' by {
                    lemma_ends(e, cand, c, k);
                    if k == cand.len() + 1 {
                        assert(suf(ec, k) == suf(x, k));
                        assert(suf(x, k) =~= x);
                    }
                }
                if c == '[' {
                    assert(shown + r.visible =~= e);
                    let ns = r.state;
                    assert(e + ns.held =~= ec);
                    assert(candidate(ns) =~= seq!['[']);
                    assert(tag_prefix(seq!['[']));
                    assert(suf(ec, 1) =~= seq!['[']);
                } else {
                    assert(shown + r.visible =~= ec);
                    assert(ec + r.state.held =~= ec);
                    assert(candidate(r.state) =~= Seq::<char>::empty());
                    assert(suf(ec, 0) =~= Seq::<char>::empty());
                }
            }
        }
    }
}

/// After any text, what was shown and what is still held hold neither tag.
proof fn lemma_run_inv(s: Seq<char>)
    ensures
        filter_inv(run(start_state(), s).state, run(start_state(), s).visible),
    decreases s.len(),
{
    if s.len() == 0 {
        assert(run(start_state(), s).visible =~= Seq::<char>::empty());
        assert(Seq::<char>::empty() + Seq::<char>::empty() =~= Seq::<char>::empty());
        assert(suf(Seq::<char>::empty(), 0) =~= Seq::<char>::empty());
        assert(candidate(start_state()) =~= Seq::<char>::empty());
    } else {
        lemma_run_inv(s.drop_last());
        let b = run(start_state(), s.drop_last());
        lemma_step_inv(b.state, b.visible, s.last());
    }
}

/// Whatever the text and however it is cut, the visible text never holds
/// `[TOOL_REQUEST]` or `[END_TOOL_REQUEST]`: neither what `push` has shown
/// nor that with what `finish` shows at the end.
pub proof fn lemma_visible_text_has_no_tags(s: Seq<char>)
    ensures
        tag_free(run(start_state(), s).visible),
        tag_free(run(start_state(), s).visible + if run(start_state(), s).state.in_region {
            Seq::<char>::empty()
        } else {
            run(start_state(), s).state.held
        }),
{
    lemma_run_inv(s);
    let r = run(start_state(), s);
    let v = r.visible;
    let p = pending_text(r.state, v);
    assert forall|t: Seq<char>| crate::text::contains(v, t) implies crate::text::contains(p, t) by {
        let i = choose|i: int| crate::text::occurs_at(v, t, i);
        assert(p.subrange(i, i + t.len()) =~= v.subrange(i, i + t.len()));
        assert(crate::text::occurs_at(p, t, i));
    }
    if r.state.in_region {
        assert(v + Seq::<char>::empty() =~= v);
    }
}

/// The filter of one stream.
pub struct ToolTagFilter {
    pub in_region: bool,
    pub held: Vec<char>,
    pub vtail: Vec<char>,
    pub body: Vec<char>,
}

impl View for ToolTagFilter {
    type V = TagState;

    open spec fn view(&self) -> TagState {
        TagState { in_region: self.in_region, held: self.held@, vtail: self.vtail@, body: self.body@ }
    }
}

/// `a` followed by `b`.
fn concat_chars(a: &Vec<char>, b: &Vec<char>) -> (r: Vec<char>)
    ensures
        r@ == a@ + b@,
{
    let mut r: Vec<char> = Vec::new();
    let mut i: usize = 0;
    while i < a.len()
        invariant
            i <= a@.len(),
            r@ == a@.subrange(0, i as int),
        decreases a@.len() - i,
    {
        r.push(a[i]);
        assert(r@ =~= a@.subrange(0, i + 1));
        i = i + 1;
    }
    let mut j: usize = 0;
    while j < b.len()
        invariant
            i == a@.len(),
            j <= b@.len(),
            r@ == a@ + b@.subrange(0, j as int),
        decreases b@.len() - j,
    {
        r.push(b[j]);
        assert(r@ =~= a@ + b@.subrange(0, j + 1));
        j = j + 1;
    }
    assert(a@.subrange(0, a@.len() as int) =~= a@);
    assert(b@.subrange(0, b@.len() as int) =~= b@);
    r
}

/// Whether `x` starts tag `t`.
fn starts_tag(x: &Vec<char>, t: &Vec<char>) -> (r: bool)
    ensures
        r == starts(x@, t@),
{
    if x.len() > t.len() {
        return false;
    }
    let mut i: usize = 0;
    while i < x.len()
        invariant
            x@.len() <= t@.len(),
            i <= x@.len(),
            forall|k: int| 0 <= k < i ==> x@[k] == t@[k],
        decreases x@.len() - i,
    {
        if x[i] != t[i] {
            return false;
        }
        i = i + 1;
    }
    true
}

/// Whether two character sequences are equal.
fn same_chars(x: &Vec<char>, t: &Vec<char>) -> (r: bool)
    ensures
        r == (x@ == t@),
{
    if x.len() != t.len() {
        return false;
    }
    let r = starts_tag(x, t);
    assert(r ==> x@ =~= t@);
    r
}

/// The characters of the opening tag.
fn open_tag_chars() -> (r: Vec<char>)
    ensures
        r@ == open_tag(),
{
    proof {
        lemma_tag_literals();
    }
    chars_of("[TOOL_REQUEST]")
}

/// The characters of the closing tag.
fn close_tag_chars() -> (r: Vec<char>)
    ensures
        r@ == close_tag(),
{
    proof {
        lemma_tag_literals();
    }
    chars_of("[END_TOOL_REQUEST]")
}

/// A string holding the characters of `v`.
pub fn string_of(v: &Vec<char>) -> (r: String)
    ensures
        r@ == v@,
{
    let mut s = String::new();
    let mut i: usize = 0;
    while i < v.len()
        invariant
            i <= v@.len(),
            s@ == v@.subrange(0, i as int),
        decreases v@.len() - i,
    {
        push_char(&mut s, v[i]);
        assert(s@ =~= v@.subrange(0, i + 1));
        i = i + 1;
    }
    assert(v@.subrange(0, v@.len() as int) =~= v@);
    s
}

/// The call that a decoded region body holds, if it holds one.
pub fn call_from_document(doc: &JsonValue) -> (r: Option<FunctionCall>)
    ensures
        match r {
            Some(c) => document_call(*doc) == Some(call_model(c)),
            None => document_call(*doc) is None,
        },
{
    match (doc.text_field("name"), doc.get("arguments")) {
        (Some(n), Some(a)) => Some(FunctionCall { name: n.clone(), arguments: encode_json(a) }),
        _ => None,
    }
}

/// The call held by a region body, if it holds one.
pub fn call_of_body(body: &str) -> (r: Option<FunctionCall>)
    ensures
        match r {
            Some(c) => body_call(body@) == Some(call_model(c)),
            None => body_call(body@) is None,
        },
{
    match decode_json(body) {
        Some(doc) => call_from_document(&doc),
        None => None,
    }
}

impl ToolTagFilter {
    /// A filter at the start of a stream.
    pub fn new() -> (r: ToolTagFilter)
        ensures
            r@ == start_state(),
    {
        ToolTagFilter { in_region: false, held: Vec::new(), vtail: Vec::new(), body: Vec::new() }
    }

    /// Reads one character; appends what becomes visible to `out` and the
    /// body of a region that closes to `bodies`.
    fn step_char(&mut self, c: char, open: &Vec<char>, close: &Vec<char>, out: &mut String, bodies: &mut Vec<String>)
        requires
            open@ == open_tag(),
            close@ == close_tag(),
        ensures
            final(self)@ == step(old(self)@, c).state,
            final(out)@ == old(out)@ + step(old(self)@, c).visible,
            final(bodies)@.map_values(|b: String| b@) == old(bodies)@.map_values(|b: String| b@) + step(old(self)@, c).bodies,
    {
        let ghost st = self@;
        let ghost old_out = out@;
        let ghost old_bodies = bodies@.map_values(|b: String| b@);
        if self.in_region {
            self.body.push(c);
            let n = self.body.len();
            if n >= close.len() && matches_at(&self.body, close, n - close.len()) {
                let mut kept: Vec<char> = Vec::new();
                let mut i: usize = 0;
                while i < n - close.len()
                    invariant
                        self.body@ == st.body.push(c),
                        n == self.body@.len(),
                        close@.len() <= n,
                        i <= n - close@.len(),
                        kept@ == self.body@.subrange(0, i as int),
                    decreases n - close@.len() - i,
                {
                    kept.push(self.body[i]);
                    assert(kept@ =~= self.body@.subrange(0, i + 1));
                    i = i + 1;
                }
                bodies.push(string_of(&kept));
                self.in_region = false;
                self.held = Vec::new();
                self.body = Vec::new();
                proof {
                    assert(out@ =~= old_out + Seq::<char>::empty());
                    assert(bodies@.map_values(|b: String| b@) =~= old_bodies + seq![kept@]);
                    assert(self@ =~= step(st, c).state);
                }
            } else {
                proof {
                    assert(out@ =~= old_out + Seq::<char>::empty());
                    assert(bodies@.map_values(|b: String| b@) =~= old_bodies + Seq::<Seq<char>>::empty());
                }
            }
            return;
        }
        proof {
            assert(bodies@.map_values(|b: String| b@) =~= old_bodies + Seq::<Seq<char>>::empty());
        }
        let mut x: Vec<char> = if self.held.len() > 0 && self.held[0] == '[' {
            concat_chars(&Vec::new(), &self.held)
        } else {
            concat_chars(&self.vtail, &self.held)
        };
        proof {
            assert(Seq::<char>::empty() + st.held =~= st.held);
        }
        let ghost cand = x@;
        x.push(c);
        if same_chars(&x, open) {
            self.in_region = true;
            self.held = Vec::new();
            self.body = Vec::new();
            assert(out@ =~= old_out + Seq::<char>::empty());
            assert(self@ =~= step(st, c).state);
        } else if same_chars(&x, close) {
            self.held = Vec::new();
            self.body = Vec::new();
            assert(out@ =~= old_out + Seq::<char>::empty());
            assert(self@ =~= step(st, c).state);
        } else if starts_tag(&x, open) || starts_tag(&x, close) {
            self.held.push(c);
            self.body = Vec::new();
            assert(out@ =~= old_out + Seq::<char>::empty());
            assert(self@ =~= step(st, c).state);
        } else if c == '[' {
            let mut i: usize = 0;
            while i < self.held.len()
                invariant
                    self.held@ == st.held,
                    x@ == cand.push(c),
                    i <= st.held.len(),
                    out@ == old_out + st.held.subrange(0, i as int),
                decreases st.held.len() - i,
            {
                push_char(out, self.held[i]);
                assert(out@ =~= old_out + st.held.subrange(0, i + 1));
                i = i + 1;
            }
            assert(st.held.subrange(0, st.held.len() as int) =~= st.held);
            assert(cand == candidate(st));
            x.pop();
            assert(x@ =~= cand);
            self.vtail = x;
            self.held = Vec::new();
            self.held.push('[');
            self.body = Vec::new();
            assert(self@.held =~= seq!['[']);
            assert(self@ =~= step(st, c).state);
        } else {
            let mut i: usize = 0;
            while i < self.held.len()
                invariant
                    self.held@ == st.held,
                    i <= st.held.len(),
                    out@ == old_out + st.held.subrange(0, i as int),
                decreases st.held.len() - i,
            {
                push_char(out, self.held[i]);
                assert(out@ =~= old_out + st.held.subrange(0, i + 1));
                i = i + 1;
            }
            push_char(out, c);
            assert(out@ =~= old_out + st.held.push(c));
            self.held = Vec::new();
            self.vtail = Vec::new();
            self.body = Vec::new();
            assert(self@ =~= start_state());
        }
    }

    /// Reads a chunk of text: returns the part that becomes visible and the
    /// calls of the regions that closed in it.
    pub fn push(&mut self, chunk: &str) -> (r: (String, Vec<FunctionCall>))
        ensures
            final(self)@ == run(old(self)@, chunk@).state,
            r.0@ == run(old(self)@, chunk@).visible,
            call_models(r.1@) == body_calls(run(old(self)@, chunk@).bodies),
    {
        let open = open_tag_chars();
        let close = close_tag_chars();
        let cs = chars_of(chunk);
        let ghost st0 = self@;
        let mut out = String::new();
        let mut bodies: Vec<String> = Vec::new();
        let mut i: usize = 0;
        while i < cs.len()
            invariant
                open@ == open_tag(),
                close@ == close_tag(),
                cs@ == chunk@,
                i <= cs@.len(),
                self@ == run(st0, cs@.subrange(0, i as int)).state,
                out@ == run(st0, cs@.subrange(0, i as int)).visible,
                bodies@.map_values(|b: String| b@) == run(st0, cs@.subrange(0, i as int)).bodies,
            decreases cs@.len() - i,
        {
            proof {
                let p = cs@.subrange(0, i + 1);
                assert(p.drop_last() =~= cs@.subrange(0, i as int));
                assert(p.last() == cs@[i as int]);
            }
            self.step_char(cs[i], &open, &close, &mut out, &mut bodies);
            i = i + 1;
        }
        assert(cs@.subrange(0, cs@.len() as int) =~= chunk@);
        let ghost all = bodies@.map_values(|b: String| b@);
        let mut calls: Vec<FunctionCall> = Vec::new();
        let mut k: usize = 0;
        while k < bodies.len()
            invariant
                k <= bodies@.len(),
                all == bodies@.map_values(|b: String| b@),
                call_models(calls@) == body_calls(all.subrange(0, k as int)),
            decreases bodies@.len() - k,
        {
            proof {
                let p = all.subrange(0, k + 1);
                assert(p.drop_last() =~= all.subrange(0, k as int));
                assert(p.last() == bodies@[k as int]@);
            }
            let ghost prev = calls@;
            match call_of_body(bodies[k].as_str()) {
                Some(c) => {
                    calls.push(c);
                    assert(call_models(calls@) =~= call_models(prev).push(call_model(calls@.last())));
                },
                None => {},
            }
            k = k + 1;
        }
        assert(all.subrange(0, all.len() as int) =~= all);
        (out, calls)
    }

    /// Ends the text without giving the filter up: returns what `finish`
    /// would show and clears the held text.
    pub fn flush(&mut self) -> (r: String)
        ensures
            r@ == (if old(self).in_region {
                Seq::<char>::empty()
            } else {
                old(self).held@
            }),
            final(self).in_region == old(self).in_region,
            final(self).held@.len() == 0,
    {
        let r = if self.in_region {
            String::new()
        } else {
            string_of(&self.held)
        };
        self.held = Vec::new();
        r
    }

    /// Ends the stream: a partial tag outside a region was ordinary text and
    /// becomes visible; a region that never closed is dropped.
    pub fn finish(self) -> (r: String)
        ensures
            r@ == (if self.in_region {
                Seq::<char>::empty()
            } else {
                self.held@
            }),
    {
        if self.in_region {
            String::new()
        } else {
            string_of(&self.held)
        }
    }
}

/// The calls that the tool regions of a whole text hold, in order; `None`
/// when it holds none.
pub fn parse_deepseek_tool_calls(content: &str) -> (r: Option<Vec<FunctionCall>>)
    ensures
        match r {
            Some(cs) => call_models(cs@) == body_calls(run(start_state(), content@).bodies)
                && cs@.len() > 0,
            None => body_calls(run(start_state(), content@).bodies).len() == 0,
        },
{
    let mut f = ToolTagFilter::new();
    let (_visible, calls) = f.push(content);
    if calls.len() == 0 {
        None
    } else {
        Some(calls)
    }
}

} // verus!
