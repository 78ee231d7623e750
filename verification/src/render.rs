//! Flat `{{variable}}` template rendering.
//!
//! A template is a string; every `{{name}}` reference is replaced by the
//! variable's value, every other character is copied through.  A reference
//! that is never closed, or that names a variable the inputs do not hold,
//! makes the whole rendering fail: there is no partial output.

use crate::kvmap::KvMap;
use vstd::prelude::*;
use vstd::std_specs::iter::IteratorSpec;

verus! {

broadcast use vstd::string::group_string_axioms;

/// The position of the first closing `}}` at or after `j`, if any.
pub open spec fn find_close(body: Seq<char>, j: int) -> Option<int>
    decreases body.len() - j,
{
    if j < 0 || j + 1 >= body.len() {
        None
    } else if body[j] == '}' && body[j + 1] == '}' {
        Some(j)
    } else {
        find_close(body, j + 1)
    }
}

/// The rendering of the template from position `i` on: `None` on an
/// unclosed `{{` or an unknown variable, else the rendered tail.
pub open spec fn render_from(body: Seq<char>, vars: Map<Seq<char>, Seq<char>>, i: int) -> Option<
    Seq<char>,
>
    decreases body.len() - i,
        via render_from_decreases
{
    if i < 0 || i >= body.len() {
        Some(Seq::empty())
    } else if i + 1 < body.len() && body[i] == '{' && body[i + 1] == '{' {
        match find_close(body, i + 2) {
            None => None,
            Some(c) => {
                let name = body.subrange(i + 2, c);
                if vars.contains_key(name) {
                    match render_from(body, vars, c + 2) {
                        None => None,
                        Some(rest) => Some(vars[name] + rest),
                    }
                } else {
                    None
                }
            },
        }
    } else {
        match render_from(body, vars, i + 1) {
            None => None,
            Some(rest) => Some(seq![body[i]] + rest),
        }
    }
}

/// The rendering of a whole template against a variable mapping.
pub open spec fn spec_render(body: Seq<char>, vars: Map<Seq<char>, Seq<char>>) -> Option<
    Seq<char>,
> {
    render_from(body, vars, 0)
}

#[via_fn]
proof fn render_from_decreases(body: Seq<char>, vars: Map<Seq<char>, Seq<char>>, i: int) {
    if 0 <= i && i + 1 < body.len() && body[i] == '{' && body[i + 1] == '{' {
        if let Some(c) = find_close(body, i + 2) {
            lemma_find_close_between(body, i + 2, c);
        }
    }
}

/// `find_close` stays put when stepping over a non-closing position.
proof fn lemma_find_close_between(body: Seq<char>, j: int, c: int)
    requires
        find_close(body, j) == Some(c),
        0 <= j,
    ensures
        j <= c,
        c + 1 < body.len(),
        body[c] == '}' && body[c + 1] == '}',
    decreases body.len() - j,
{
    if j + 1 >= body.len() {
    } else if body[j] == '}' && body[j + 1] == '}' {
    } else {
        lemma_find_close_between(body, j + 1, c);
    }
}

/// The characters of a string, in order.
pub fn str_to_chars(s: &str) -> (r: Vec<char>)
    ensures
        r@ == s@,
{
    let mut it = s.chars();
    let mut v: Vec<char> = Vec::new();
    loop
        invariant
            it.obeys_prophetic_iter_laws(),
            it.decrease() is Some,
            v@ + it.remaining() == s@,
        decreases it.decrease()->0,
    {
        match it.next() {
            Some(c) => {
                v.push(c);
                proof {
                    assert(v@ + it.remaining() =~= s@);
                }
            },
            None => {
                proof {
                    assert(v@ =~= s@);
                }
                return v;
            },
        }
    }
}

/// Relies on `String: FromIterator<char>`: collecting characters yields
/// the string of exactly those characters.
#[verifier::external_body]
fn chars_to_string(v: &Vec<char>) -> (r: String)
    ensures
        r@ == v@,
{
    v.iter().collect()
}

/// The first closing `}}` at or after `from`, by scanning.
fn scan_close(body: &Vec<char>, from: usize) -> (r: Option<usize>)
    requires
        from <= body@.len(),
    ensures
        match r {
            Some(c) => find_close(body@, from as int) == Some(c as int),
            None => find_close(body@, from as int) is None,
        },
{
    let n = body.len();
    let mut j: usize = from;
    loop
        invariant
            from <= j <= n,
            n == body@.len(),
            find_close(body@, from as int) == find_close(body@, j as int),
        decreases n - j,
    {
        if n - j <= 1 {
            return None;
        }
        if body[j] == '}' && body[j + 1] == '}' {
            return Some(j);
        }
        proof {
            assert(find_close(body@, j as int) == find_close(body@, j + 1));
        }
        j = j + 1;
    }
}

/// Renders a template, given as its characters, against the variable
/// mapping; `None` exactly where the rendering is undefined.
pub fn render_chars(body: &Vec<char>, vars: &KvMap<String>) -> (r: Option<Vec<char>>)
    requires
        vars.wf(),
    ensures
        match r {
            Some(out) => spec_render(body@, vars@) == Some(out@),
            None => spec_render(body@, vars@) is None,
        },
{
    let n = body.len();
    let mut out: Vec<char> = Vec::new();
    let mut i: usize = 0;
    while i < n
        invariant
            i <= n,
            n == body@.len(),
            vars.wf(),
            spec_render(body@, vars@) == (match render_from(body@, vars@, i as int) {
                None => None::<Seq<char>>,
                Some(rest) => Some(out@ + rest),
            }),
        decreases n - i,
    {
        if i + 1 < n && body[i] == '{' && body[i + 1] == '{' {
            match scan_close(body, i + 2) {
                None => {
                    return None;
                },
                Some(c) => {
                    proof {
                        lemma_find_close_between(body@, i + 2, c as int);
                    }
                    let mut name_chars: Vec<char> = Vec::new();
                    let mut k: usize = i + 2;
                    while k < c
                        invariant
                            i + 2 <= k <= c,
                            c < body@.len(),
                            n == body@.len(),
                            name_chars@ == body@.subrange(i + 2, k as int),
                        decreases c - k,
                    {
                        name_chars.push(body[k]);
                        proof {
                            assert(name_chars@ =~= body@.subrange(i + 2, k + 1));
                        }
                        k = k + 1;
                    }
                    let name = chars_to_string(&name_chars);
                    match vars.get(&name) {
                        None => {
                            return None;
                        },
                        Some(value) => {
                            let ghost out0 = out@;
                            let mut value_chars = str_to_chars(value.as_str());
                            let ghost val = value_chars@;
                            out.append(&mut value_chars);
                            proof {
                                assert(val == vars@[body@.subrange(i + 2, c as int)]);
                                if render_from(body@, vars@, c + 2) is Some {
                                    let rest = render_from(body@, vars@, c + 2)->0;
                                    assert((out0 + (val + rest)) =~= ((out0 + val) + rest));
                                }
                            }
                            i = c + 2;
                        },
                    }
                },
            }
        } else {
            let ghost out0 = out@;
            out.push(body[i]);
            proof {
                if render_from(body@, vars@, i + 1) is Some {
                    let rest = render_from(body@, vars@, i + 1)->0;
                    assert((out0 + (seq![body@[i as int]] + rest)) =~= (out0.push(body@[i as int])
                        + rest));
                }
            }
            i = i + 1;
        }
    }
    Some(out)
}

/// Renders a template against the variable mapping; `None` exactly where
/// a reference is unclosed or names an unknown variable.
pub fn render_template(body: &String, vars: &KvMap<String>) -> (r: Option<String>)
    requires
        vars.wf(),
    ensures
        match r {
            Some(s) => spec_render(body@, vars@) == Some(s@),
            None => spec_render(body@, vars@) is None,
        },
{
    let body_chars = str_to_chars(body.as_str());
    match render_chars(&body_chars, vars) {
        Some(out) => Some(chars_to_string(&out)),
        None => None,
    }
}

} // verus!
