//! The text of a reply as shown to a user: tool regions taken out, the
//! model's `<think>` blocks taken out, and surrounding white space trimmed.
use vstd::prelude::*;

use crate::tags::{run, start_state, ToolTagFilter};
use crate::text::{chars_of, matches_at, occurs_at, push_char};

verus! {

/// Whether `c` is white space: the Unicode White_Space property, which is
/// what Rust's `char::is_whitespace` tests.
pub open spec fn white_space(c: char) -> bool {
    let u = c as u32;
    (0x9 <= u <= 0xD) || u == 0x20 || u == 0x85 || u == 0xA0 || u == 0x1680 || (0x2000 <= u <= 0x200A)
        || u == 0x2028 || u == 0x2029 || u == 0x202F || u == 0x205F || u == 0x3000
}

/// Whether `c` is white space.
fn is_white_space(c: char) -> (r: bool)
    ensures
        r == white_space(c),
{
    let u = c as u32;
    (0x9 <= u && u <= 0xD) || u == 0x20 || u == 0x85 || u == 0xA0 || u == 0x1680 || (0x2000 <= u && u <= 0x200A)
        || u == 0x2028 || u == 0x2029 || u == 0x202F || u == 0x205F || u == 0x3000
}

/// `s` without its leading white space.
pub open spec fn trim_start(s: Seq<char>) -> Seq<char>
    decreases s.len(),
{
    if s.len() > 0 && white_space(s[0]) {
        trim_start(s.drop_first())
    } else {
        s
    }
}

/// `s` without its trailing white space.
pub open spec fn trim_end(s: Seq<char>) -> Seq<char>
    decreases s.len(),
{
    if s.len() > 0 && white_space(s.last()) {
        trim_end(s.drop_last())
    } else {
        s
    }
}

/// `s` without white space at either end.
pub open spec fn trimmed(s: Seq<char>) -> Seq<char> {
    trim_end(trim_start(s))
}

/// The opening of a thinking block.
pub open spec fn think_open() -> Seq<char> {
    seq!['<', 't', 'h', 'i', 'n', 'k', '>']
}

/// The closing of a thinking block.
pub open spec fn think_close() -> Seq<char> {
    seq!['<', '/', 't', 'h', 'i', 'n', 'k', '>']
}

/// The first closing of a thinking block in `s` at or after `k`.
pub open spec fn next_close(s: Seq<char>, k: int) -> Option<int>
    decreases s.len() - k,
{
    if k < 0 || k + 8 > s.len() {
        None
    } else if occurs_at(s, think_close(), k) {
        Some(k)
    } else {
        next_close(s, k + 1)
    }
}

/// A closing found at or after `k` lies at or after `k`, inside `s`.
proof fn lemma_next_close_bounds(s: Seq<char>, k: int)
    ensures
        next_close(s, k) is Some ==> k <= next_close(s, k)->0 && next_close(s, k)->0 + 8 <= s.len(),
    decreases s.len() - k,
{
    if !(k < 0 || k + 8 > s.len()) && !occurs_at(s, think_close(), k) {
        lemma_next_close_bounds(s, k + 1);
    }
}

/// `s` from index `i` on without its thinking blocks: an opening that a
/// closing follows is removed through the first such closing, and the
/// search goes on after it.
pub open spec fn strip_from(s: Seq<char>, i: int) -> Seq<char>
    decreases s.len() - i,
{
    if i < 0 || i >= s.len() {
        Seq::empty()
    } else if occurs_at(s, think_open(), i) && next_close(s, i + 7) is Some
        && i < next_close(s, i + 7)->0 + 8 <= s.len() {
        strip_from(s, next_close(s, i + 7)->0 + 8)
    } else {
        seq![s[i]] + strip_from(s, i + 1)
    }
}

/// `s` without its thinking blocks.
pub open spec fn strip_think(s: Seq<char>) -> Seq<char> {
    strip_from(s, 0)
}

/// The visible text of a whole reply: tool regions out, and a partial tag
/// left at the end kept as text.
pub open spec fn without_regions(s: Seq<char>) -> Seq<char> {
    let r = run(start_state(), s);
    r.visible + if r.state.in_region {
        Seq::<char>::empty()
    } else {
        r.state.held
    }
}

/// The text of `v` from `from` to `to`.
fn slice_string(v: &Vec<char>, from: usize, to: usize) -> (r: String)
    requires
        from <= to <= v@.len(),
    ensures
        r@ == v@.subrange(from as int, to as int),
{
    let mut s = String::new();
    let mut i: usize = from;
    while i < to
        invariant
            from <= i <= to <= v@.len(),
            s@ == v@.subrange(from as int, i as int),
        decreases to - i,
    {
        push_char(&mut s, v[i]);
        assert(s@ =~= v@.subrange(from as int, i + 1));
        i = i + 1;
    }
    s
}

/// `s` without white space at either end.
pub fn trim_text(s: &str) -> (r: String)
    ensures
        r@ == trimmed(s@),
{
    let cs = chars_of(s);
    let n = cs.len();
    let mut i: usize = 0;
    assert(cs@.subrange(0, n as int) =~= cs@);
    while i < n && is_white_space(cs[i])
        invariant
            cs@ == s@,
            n == cs@.len(),
            i <= n,
            trim_start(s@) == trim_start(cs@.subrange(i as int, n as int)),
        decreases n - i,
    {
        assert(cs@.subrange(i as int, n as int).drop_first() =~= cs@.subrange(i + 1, n as int));
        i = i + 1;
    }
    let mut j: usize = n;
    while j > i && is_white_space(cs[j - 1])
        invariant
            cs@ == s@,
            n == cs@.len(),
            i <= j <= n,
            trim_start(s@) == cs@.subrange(i as int, n as int) ==> true,
            trim_end(cs@.subrange(i as int, n as int)) == trim_end(cs@.subrange(i as int, j as int)),
        decreases j,
    {
        assert(cs@.subrange(i as int, j as int).drop_last() =~= cs@.subrange(i as int, j - 1));
        j = j - 1;
    }
    proof {
        let a = cs@.subrange(i as int, n as int);
        if i < n {
            assert(a[0] == cs@[i as int]);
        }
        assert(trim_start(a) == a);
        let b = cs@.subrange(i as int, j as int);
        if j > i {
            assert(b.last() == cs@[j - 1]);
        }
        assert(trim_end(b) == b);
    }
    slice_string(&cs, i, j)
}

/// Where a thinking block first closes in `v` at or after `from`.
fn find_close(v: &Vec<char>, close: &Vec<char>, from: usize) -> (r: Option<usize>)
    requires
        close@ == think_close(),
    ensures
        match r {
            Some(j) => next_close(v@, from as int) == Some(j as int) && j + 8 <= v@.len(),
            None => next_close(v@, from as int) is None,
        },
{
    let n = v.len();
    if from > n {
        return None;
    }
    let mut j: usize = from;
    while n - j >= 8 && !matches_at(v, close, j)
        invariant
            close@ == think_close(),
            n == v@.len(),
            from <= j <= n,
            next_close(v@, from as int) == next_close(v@, j as int),
        decreases n - j,
    {
        j = j + 1;
    }
    if n - j >= 8 {
        Some(j)
    } else {
        None
    }
}

/// `s` without its thinking blocks.
pub fn strip_think_blocks(s: &str) -> (r: String)
    ensures
        r@ == strip_think(s@),
{
    let cs = chars_of(s);
    let open = chars_of("<think>");
    let close = chars_of("</think>");
    proof {
        reveal_strlit("<think>");
        reveal_strlit("</think>");
        assert(open@ =~= think_open());
        assert(close@ =~= think_close());
    }
    let n = cs.len();
    let mut out = String::new();
    let mut i: usize = 0;
    assert(out@ + strip_from(s@, 0) =~= strip_from(s@, 0));
    while i < n
        invariant
            cs@ == s@,
            n == cs@.len(),
            open@ == think_open(),
            close@ == think_close(),
            i <= n,
            strip_think(s@) == out@ + strip_from(s@, i as int),
        decreases n - i,
    {
        let at_open = matches_at(&cs, &open, i);
        let closing = if at_open && i + 7 <= n {
            find_close(&cs, &close, i + 7)
        } else {
            None
        };
        proof {
            lemma_next_close_bounds(s@, i + 7);
        }
        match closing {
            Some(j) => {
                assert(strip_from(s@, i as int) == strip_from(s@, j + 8));
                i = j + 8;
            },
            None => {
                let ghost before = out@;
                push_char(&mut out, cs[i]);
                assert(out@ + strip_from(s@, i + 1) =~= before + (seq![s@[i as int]] + strip_from(s@, i + 1)));
                i = i + 1;
            },
        }
    }
    assert(out@ + strip_from(s@, n as int) =~= out@);
    out
}

/// The text of a whole reply without its tool regions.
pub fn text_without_regions(content: &str) -> (r: String)
    ensures
        r@ == without_regions(content@),
{
    let mut f = ToolTagFilter::new();
    let (visible, _calls) = f.push(content);
    let rest = f.finish();
    let mut out = visible;
    crate::text::push_text(&mut out, rest.as_str());
    out
}

/// A reply's text for display: tool regions out and trimmed, then thinking
/// blocks out and trimmed again.
pub fn extract_content_without_tools(content: &str) -> (r: String)
    ensures
        r@ == trimmed(strip_think(trimmed(without_regions(content@)))),
{
    let a = text_without_regions(content);
    let b = trim_text(a.as_str());
    let c = strip_think_blocks(b.as_str());
    trim_text(c.as_str())
}

} // verus!
