//! Which environment variables may be shown to a model, and which values
//! must be hidden.
use vstd::prelude::*;

use crate::text::{contains, contains_text, has_prefix, starts_with, str_eq, text_copy};

verus! {

/// Finds the environment variables worth sharing.
pub struct EnvironmentDetector;

/// Hides credentials before anything is shared.
pub struct PrivacyFilter;

/// Whether `c` is alphanumeric, as Rust's `char::is_alphanumeric` says.
pub uninterp spec fn alphanumeric(c: char) -> bool;

/// Relies on `char::is_alphanumeric`: the Unicode Alphabetic and Numeric properties.
#[verifier::external_body]
fn is_alphanumeric(c: char) -> (r: bool)
    ensures
        r == alphanumeric(c),
{
    c.is_alphanumeric()
}

/// The variables that may be shared: the toolchains' own, and a few
/// well-known ones.
pub open spec fn safe_env_key(key: Seq<char>) -> bool {
    has_prefix(key, "NODE_"@) || has_prefix(key, "RUST_"@) || has_prefix(key, "PYTHON_"@) || key == "PATH"@
        || key == "SHELL"@ || key == "EDITOR"@ || key == "LANG"@ || key == "LC_ALL"@
}

/// Keys that name a credential.
pub open spec fn sensitive_key(key: Seq<char>) -> bool {
    contains(key, "PASSWORD"@) || contains(key, "SECRET"@) || contains(key, "KEY"@) || contains(key, "TOKEN"@)
        || contains(key, "CREDENTIAL"@) || contains(key, "AUTH"@) || contains(key, "PRIVATE"@)
}

/// How many bytes a character takes in UTF-8.
pub open spec fn utf8_width(c: char) -> nat {
    if (c as u32) < 0x80 {
        1
    } else if (c as u32) < 0x800 {
        2
    } else if (c as u32) < 0x10000 {
        3
    } else {
        4
    }
}

/// How many bytes a text takes in UTF-8.
pub open spec fn utf8_len(s: Seq<char>) -> nat
    decreases s.len(),
{
    if s.len() == 0 {
        0
    } else {
        utf8_len(s.drop_last()) + utf8_width(s.last())
    }
}

/// Values that may hold a secret: longer than 20 bytes, with a character
/// that is not alphanumeric.
pub open spec fn secret_like(value: Seq<char>) -> bool {
    utf8_len(value) > 20 && exists|i: int| 0 <= i < value.len() && !alphanumeric(#[trigger] value[i])
}

/// A text is at least as long in bytes as any of its prefixes.
proof fn lemma_utf8_len_prefix(s: Seq<char>, k: int)
    requires
        0 <= k <= s.len(),
    ensures
        utf8_len(s.subrange(0, k)) <= utf8_len(s),
    decreases s.len() - k,
{
    if k < s.len() {
        let p = s.subrange(0, k + 1);
        assert(p.drop_last() =~= s.subrange(0, k));
        lemma_utf8_len_prefix(s, k + 1);
    } else {
        assert(s.subrange(0, k) =~= s);
    }
}

/// A value as it may be shared.
pub open spec fn shown_value(v: Seq<char>) -> Seq<char> {
    if secret_like(v) {
        "[REDACTED]"@
    } else {
        v
    }
}

/// Whether shared entry `o` is input entry `v` as it may be shared.
pub open spec fn from_entry(o: (String, String), v: (String, String)) -> bool {
    o.0@ == v.0@ && o.1@ == shown_value(v.1@)
}

/// Whether shared entry `o` is some entry of `vars`, as it may be shared.
pub open spec fn comes_from(o: (String, String), vars: Seq<(String, String)>) -> bool {
    exists|i: int| 0 <= i < vars.len() && #[trigger] from_entry(o, vars[i])
}

impl EnvironmentDetector {
    /// Whether variable `key` may be shared.
    pub fn is_safe_env_var(&self, key: &str) -> (r: bool)
        ensures
            r == safe_env_key(key@),
    {
        starts_with(key, "NODE_") || starts_with(key, "RUST_") || starts_with(key, "PYTHON_") || str_eq(key, "PATH")
            || str_eq(key, "SHELL") || str_eq(key, "EDITOR") || str_eq(key, "LANG") || str_eq(key, "LC_ALL")
    }
}

impl PrivacyFilter {
    /// Whether `key` names a credential.
    pub fn is_sensitive_key(&self, key: &str) -> (r: bool)
        ensures
            r == sensitive_key(key@),
    {
        contains_text(key, "PASSWORD") || contains_text(key, "SECRET") || contains_text(key, "KEY")
            || contains_text(key, "TOKEN") || contains_text(key, "CREDENTIAL") || contains_text(key, "AUTH")
            || contains_text(key, "PRIVATE")
    }

    /// Whether `value` may hold a secret.
    pub fn might_contain_secret(&self, value: &str) -> (r: bool)
        ensures
            r == secret_like(value@),
    {
        let cs = crate::text::chars_of(value);
        let mut bytes: usize = 0;
        let mut k: usize = 0;
        while k < cs.len() && bytes <= 20
            invariant
                cs@ == value@,
                k <= cs@.len(),
                bytes == utf8_len(cs@.subrange(0, k as int)),
            decreases cs@.len() - k,
        {
            proof {
                let p = cs@.subrange(0, k + 1);
                assert(p.drop_last() =~= cs@.subrange(0, k as int));
            }
            let c = cs[k] as u32;
            let w: usize = if c < 0x80 {
                1
            } else if c < 0x800 {
                2
            } else if c < 0x10000 {
                3
            } else {
                4
            };
            bytes = bytes + w;
            k = k + 1;
        }
        if bytes <= 20 {
            assert(cs@.subrange(0, k as int) =~= cs@);
            return false;
        }
        proof {
            lemma_utf8_len_prefix(cs@, k as int);
        }
        let mut i: usize = 0;
        while i < cs.len()
            invariant
                cs@ == value@,
                utf8_len(value@) > 20,
                i <= cs@.len(),
                forall|j: int| 0 <= j < i ==> alphanumeric(#[trigger] value@[j]),
            decreases cs@.len() - i,
        {
            if !is_alphanumeric(cs[i]) {
                return true;
            }
            i = i + 1;
        }
        false
    }

    /// The variables that may be shared: those with a credential's name are
    /// dropped, and values that may hold a secret are replaced by
    /// `[REDACTED]`.
    pub fn filter_env_vars(&self, vars: &Vec<(String, String)>) -> (r: Vec<(String, String)>)
        ensures
            r@.len() <= vars@.len(),
            forall|i: int| 0 <= i < r@.len() ==> !sensitive_key(#[trigger] r@[i].0@),
            forall|j: int| 0 <= j < r@.len() ==> comes_from(#[trigger] r@[j], vars@),
            forall|i: int| 0 <= i < vars@.len() && !sensitive_key(#[trigger] vars@[i].0@) ==> exists|j: int|
                0 <= j < r@.len() && r@[j].0@ == vars@[i].0@ && r@[j].1@ == (if secret_like(vars@[i].1@) {
                    "[REDACTED]"@
                } else {
                    vars@[i].1@
                }),
    {
        let mut out: Vec<(String, String)> = Vec::new();
        let mut i: usize = 0;
        while i < vars.len()
            invariant
                i <= vars@.len(),
                out@.len() <= i,
                forall|k: int| 0 <= k < out@.len() ==> !sensitive_key(#[trigger] out@[k].0@),
                forall|j: int| 0 <= j < out@.len() ==> comes_from(#[trigger] out@[j], vars@),
                forall|k: int| 0 <= k < i && !sensitive_key(#[trigger] vars@[k].0@) ==> exists|j: int|
                    0 <= j < out@.len() && out@[j].0@ == vars@[k].0@ && out@[j].1@ == (if secret_like(vars@[k].1@) {
                        "[REDACTED]"@
                    } else {
                        vars@[k].1@
                    }),
            decreases vars@.len() - i,
        {
            let (key, value) = (&vars[i].0, &vars[i].1);
            if !self.is_sensitive_key(key.as_str()) {
                let shown = if self.might_contain_secret(value.as_str()) {
                    text_copy("[REDACTED]")
                } else {
                    value.clone()
                };
                let ghost prev = out@;
                out.push((key.clone(), shown));
                proof {
                    assert forall|k: int| 0 <= k < i + 1 && !sensitive_key(#[trigger] vars@[k].0@) implies exists|j: int|
                        0 <= j < out@.len() && out@[j].0@ == vars@[k].0@ && out@[j].1@ == (if secret_like(vars@[k].1@) {
                            "[REDACTED]"@
                        } else {
                            vars@[k].1@
                        }) by {
                        if k < i {
                            let j = choose|j: int| 0 <= j < prev.len() && prev[j].0@ == vars@[k].0@ && prev[j].1@ == (if secret_like(vars@[k].1@) {
                                "[REDACTED]"@
                            } else {
                                vars@[k].1@
                            });
                            assert(out@[j] == prev[j]);
                        } else {
                            assert(out@[prev.len() as int].0@ == vars@[k].0@);
                        }
                    }
                    assert forall|j: int| 0 <= j < out@.len() implies comes_from(#[trigger] out@[j], vars@) by {
                        if j < prev.len() {
                            assert(out@[j] == prev[j]);
                        } else {
                            assert(from_entry(out@[j], vars@[i as int]));
                        }
                    }
                }
            }
            i = i + 1;
        }
        out
    }
}

} // verus!
