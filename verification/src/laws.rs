//! General laws of the substitution engine, proved once and for all inputs.

use vstd::prelude::*;

use crate::engine::{
    close_delim, expand_fragments, fragment_output, marker, open_delim, strip_close,
    substitute_spec,
};
use crate::table::ValueView;
use crate::text::{contains_pat, find_pat, lemma_find_pat_characterization, occurs_at};

verus! {

/// In `pre + open_delim() + rest` with no opening delimiter inside `pre`, the
/// leftmost opening delimiter is the explicit one.
proof fn lemma_first_open(pre: Seq<char>, rest: Seq<char>)
    requires
        !contains_pat(pre, open_delim()),
    ensures
        find_pat(pre + open_delim() + rest, open_delim()) == Some(pre.len() as int),
{
    let text = pre + open_delim() + rest;
    let pl = pre.len() as int;
    assert(occurs_at(text, open_delim(), pl)) by {
        assert forall|k: int| 0 <= k < open_delim().len() implies text[pl + k]
            == open_delim()[k] by {
            assert(text[pl + k] == (pre + open_delim())[pl + k]);
        }
    }
    assert forall|j: int| 0 <= j < pl implies !occurs_at(text, open_delim(), j) by {
        if occurs_at(text, open_delim(), j) {
            if j + open_delim().len() <= pl {
                assert(occurs_at(pre, open_delim(), j)) by {
                    assert forall|k: int| 0 <= k < open_delim().len() implies pre[j + k]
                        == open_delim()[k] by {
                        assert(text[j + k] == (pre + open_delim())[j + k]);
                    }
                }
                assert(contains_pat(pre, open_delim()));
            } else {
                let k = pl - j;
                assert(1 <= k < 3);
                assert(text[j + k] == open_delim()[k]);
                assert(open_delim()[k] == '{');
                assert(text[pl] == (pre + open_delim())[pl]);
                assert(text[pl] == '$');
            }
        }
    }
    lemma_find_pat_characterization(text, open_delim());
    match find_pat(text, open_delim()) {
        None => {
            assert(!occurs_at(text, open_delim(), pl));
        },
        Some(i0) => {
            if i0 < pl {
                assert(occurs_at(text, open_delim(), i0));
            }
            if i0 > pl {
                assert(!occurs_at(text, open_delim(), pl));
            }
        },
    }
}

/// In `name + close_delim() + post` with no closing delimiter inside `name`
/// and `name` not ending in `'}'`, the leftmost closing delimiter is the
/// explicit one.
proof fn lemma_first_close(name: Seq<char>, post: Seq<char>)
    requires
        !contains_pat(name, close_delim()),
        name.len() > 0 ==> name[name.len() - 1] != '}',
    ensures
        find_pat(name + close_delim() + post, close_delim()) == Some(name.len() as int),
{
    let frag = name + close_delim() + post;
    let nl = name.len() as int;
    assert(occurs_at(frag, close_delim(), nl)) by {
        assert forall|k: int| 0 <= k < close_delim().len() implies frag[nl + k]
            == close_delim()[k] by {
            assert(frag[nl + k] == (name + close_delim())[nl + k]);
        }
    }
    assert forall|j: int| 0 <= j < nl implies !occurs_at(frag, close_delim(), j) by {
        if occurs_at(frag, close_delim(), j) {
            if j + close_delim().len() <= nl {
                assert(occurs_at(name, close_delim(), j)) by {
                    assert forall|k: int| 0 <= k < close_delim().len() implies name[j + k]
                        == close_delim()[k] by {
                        assert(frag[j + k] == (name + close_delim())[j + k]);
                    }
                }
                assert(contains_pat(name, close_delim()));
            } else {
                assert(j == nl - 1);
                assert(frag[j] == (name + close_delim())[j]);
                assert(frag[j] == name[nl - 1]);
                assert(frag[j] == close_delim()[0]);
                assert(close_delim()[0] == '}');
            }
        }
    }
    lemma_find_pat_characterization(frag, close_delim());
    match find_pat(frag, close_delim()) {
        None => {
            assert(!occurs_at(frag, close_delim(), nl));
        },
        Some(i0) => {
            if i0 < nl {
                assert(occurs_at(frag, close_delim(), i0));
            }
            if i0 > nl {
                assert(!occurs_at(frag, close_delim(), nl));
            }
        },
    }
}

/// A text free of the closing delimiter is left untouched by `strip_close`.
proof fn lemma_strip_close_identity(t: Seq<char>)
    requires
        !contains_pat(t, close_delim()),
    ensures
        strip_close(t) == t,
{
    lemma_find_pat_characterization(t, close_delim());
    if let Some(i) = find_pat(t, close_delim()) {
        assert(contains_pat(t, close_delim()));
    }
}

/// Stripping `close_delim() + post` removes exactly the leading delimiter
/// when `post` holds no further one.
proof fn lemma_strip_close_after_close(post: Seq<char>)
    requires
        !contains_pat(post, close_delim()),
    ensures
        strip_close(close_delim() + post) == post,
{
    let t = close_delim() + post;
    assert(occurs_at(t, close_delim(), 0)) by {
        assert forall|k: int| 0 <= k < close_delim().len() implies t[k] == close_delim()[k] by {
        }
    }
    lemma_find_pat_characterization(t, close_delim());
    match find_pat(t, close_delim()) {
        None => {
            assert(!occurs_at(t, close_delim(), 0));
        },
        Some(i0) => {
            if i0 > 0 {
                assert(!occurs_at(t, close_delim(), 0));
            }
            assert(i0 == 0);
            assert(t.subrange(0, 0) =~= Seq::<char>::empty());
            assert(t.subrange(close_delim().len() as int, t.len() as int) =~= post);
            lemma_strip_close_identity(post);
            assert(strip_close(t) =~= post);
        },
    }
}

/// A part `name + close_delim() + post` holds no opening delimiter when
/// neither `name` nor `post` does.
proof fn lemma_no_open_in_fragment(name: Seq<char>, post: Seq<char>)
    requires
        !contains_pat(name, open_delim()),
        !contains_pat(post, open_delim()),
    ensures
        !contains_pat(name + close_delim() + post, open_delim()),
{
    let frag = name + close_delim() + post;
    let nl = name.len() as int;
    assert forall|j: int| !occurs_at(frag, open_delim(), j) by {
        if occurs_at(frag, open_delim(), j) {
            if j + open_delim().len() <= nl {
                assert(occurs_at(name, open_delim(), j)) by {
                    assert forall|k: int| 0 <= k < open_delim().len() implies name[j + k]
                        == open_delim()[k] by {
                        assert(frag[j + k] == (name + close_delim())[j + k]);
                    }
                }
                assert(contains_pat(name, open_delim()));
            } else if j < nl {
                let k = nl - j;
                assert(1 <= k < 3);
                assert(frag[j + k] == open_delim()[k]);
                assert(open_delim()[k] == '{');
                assert(frag[nl] == (name + close_delim())[nl]);
                assert(frag[nl] == '}');
            } else if j < nl + 2 {
                assert(frag[j] == (name + close_delim())[j]);
                assert(frag[j] == close_delim()[j - nl]);
                assert(frag[j] == '}');
                assert(frag[j] == open_delim()[0]);
                assert(open_delim()[0] == '$');
            } else {
                assert(occurs_at(post, open_delim(), j - nl - 2)) by {
                    assert forall|k: int| 0 <= k < open_delim().len() implies post[j - nl - 2 + k]
                        == open_delim()[k] by {
                        assert(frag[j + k] == post[j + k - (nl + 2)]);
                    }
                }
                assert(contains_pat(post, open_delim()));
            }
        }
    }
}

/// A part free of the opening delimiter expands to its own fragment output.
proof fn lemma_expand_single(vars: Map<Seq<char>, ValueView>, frag: Seq<char>)
    requires
        !contains_pat(frag, open_delim()),
    ensures
        expand_fragments(vars, frag) == fragment_output(vars, frag),
{
    lemma_find_pat_characterization(frag, open_delim());
    if let Some(i) = find_pat(frag, open_delim()) {
        assert(contains_pat(frag, open_delim()));
    }
}

/// The fragment output of `name + close_delim() + post` is the looked-up
/// value of `name` (or its unknown-variable marker), followed by `post`.
proof fn lemma_fragment_output_value(
    vars: Map<Seq<char>, ValueView>,
    name: Seq<char>,
    post: Seq<char>,
)
    requires
        !contains_pat(name, close_delim()),
        name.len() > 0 ==> name[name.len() - 1] != '}',
        !contains_pat(post, close_delim()),
    ensures
        fragment_output(vars, name + close_delim() + post) == (
        if vars.contains_key(name) && vars[name] is Str {
            vars[name]->Str_0
        } else {
            marker(name)
        }) + post,
{
    let frag = name + close_delim() + post;
    let nl = name.len() as int;
    lemma_first_close(name, post);
    assert(frag.subrange(0, nl) =~= name);
    assert(frag.subrange(nl, frag.len() as int) =~= close_delim() + post);
    lemma_strip_close_identity(name);
    lemma_strip_close_after_close(post);
}

/// Identity law: a text with no `${{` delimiter is returned unchanged, for
/// every variable table.
pub proof fn lemma_no_placeholder_identity(vars: Map<Seq<char>, ValueView>, text: Seq<char>)
    requires
        !contains_pat(text, open_delim()),
    ensures
        substitute_spec(vars, text) == text,
{
    lemma_find_pat_characterization(text, open_delim());
    if let Some(i) = find_pat(text, open_delim()) {
        assert(contains_pat(text, open_delim()));
    }
}

/// Single-pass law: the engine never rescans its own output, so whenever the
/// rewritten text is free of the `${{` delimiter — in particular whenever no
/// substituted value reintroduces it — a second pass changes nothing. The
/// hypothesis cannot be dropped: a substituted value may itself contain
/// `${{...}}`, which a second pass would expand further.
pub proof fn lemma_single_pass(vars: Map<Seq<char>, ValueView>, text: Seq<char>)
    requires
        !contains_pat(substitute_spec(vars, text), open_delim()),
    ensures
        substitute_spec(vars, substitute_spec(vars, text)) == substitute_spec(vars, text),
{
    lemma_no_placeholder_identity(vars, substitute_spec(vars, text));
}

/// Known-variable law: a placeholder naming a variable bound to string `v` is
/// replaced by `v`, and nothing around it changes.
pub proof fn lemma_known_variable(
    vars: Map<Seq<char>, ValueView>,
    pre: Seq<char>,
    name: Seq<char>,
    v: Seq<char>,
    post: Seq<char>,
)
    requires
        !contains_pat(pre, open_delim()),
        !contains_pat(name, open_delim()),
        !contains_pat(name, close_delim()),
        name.len() > 0 ==> name[name.len() - 1] != '}',
        !contains_pat(post, open_delim()),
        !contains_pat(post, close_delim()),
        vars.contains_key(name),
        vars[name] == ValueView::Str(v),
    ensures
        substitute_spec(vars, pre + open_delim() + name + close_delim() + post) == pre + v + post,
{
    let rest = name + close_delim() + post;
    let text = pre + open_delim() + rest;
    let pl = pre.len() as int;
    assert(pre + open_delim() + name + close_delim() + post =~= text);
    lemma_first_open(pre, rest);
    assert(text.subrange(0, pl) =~= pre);
    assert(text.subrange(pl + open_delim().len(), text.len() as int) =~= rest);
    lemma_no_open_in_fragment(name, post);
    lemma_expand_single(vars, rest);
    lemma_fragment_output_value(vars, name, post);
    assert(substitute_spec(vars, text) == pre + (v + post));
    assert(pre + (v + post) =~= pre + v + post);
}

/// Unknown-variable law: a placeholder naming a variable that is absent from
/// the table, or bound to a non-string value, is replaced by exactly the
/// inline `UNKNOWN VARIABLE '<name>'` marker.
pub proof fn lemma_unknown_variable(
    vars: Map<Seq<char>, ValueView>,
    pre: Seq<char>,
    name: Seq<char>,
    post: Seq<char>,
)
    requires
        !contains_pat(pre, open_delim()),
        !contains_pat(name, open_delim()),
        !contains_pat(name, close_delim()),
        name.len() > 0 ==> name[name.len() - 1] != '}',
        !contains_pat(post, open_delim()),
        !contains_pat(post, close_delim()),
        !vars.contains_key(name) || vars[name] is Other,
    ensures
        substitute_spec(vars, pre + open_delim() + name + close_delim() + post) == pre + marker(
            name,
        ) + post,
{
    let rest = name + close_delim() + post;
    let text = pre + open_delim() + rest;
    let pl = pre.len() as int;
    assert(pre + open_delim() + name + close_delim() + post =~= text);
    lemma_first_open(pre, rest);
    assert(text.subrange(0, pl) =~= pre);
    assert(text.subrange(pl + open_delim().len(), text.len() as int) =~= rest);
    lemma_no_open_in_fragment(name, post);
    lemma_expand_single(vars, rest);
    lemma_fragment_output_value(vars, name, post);
    assert(substitute_spec(vars, text) == pre + (marker(name) + post));
    assert(pre + (marker(name) + post) =~= pre + marker(name) + post);
}

/// Empty-table law: with no variable bound at all, every placeholder becomes
/// its unknown-variable marker; no input is rejected.
pub proof fn lemma_empty_table(pre: Seq<char>, name: Seq<char>, post: Seq<char>)
    requires
        !contains_pat(pre, open_delim()),
        !contains_pat(name, open_delim()),
        !contains_pat(name, close_delim()),
        name.len() > 0 ==> name[name.len() - 1] != '}',
        !contains_pat(post, open_delim()),
        !contains_pat(post, close_delim()),
    ensures
        substitute_spec(
            Map::<Seq<char>, ValueView>::empty(),
            pre + open_delim() + name + close_delim() + post,
        ) == pre + marker(name) + post,
{
    lemma_unknown_variable(Map::<Seq<char>, ValueView>::empty(), pre, name, post);
}

/// Unterminated-placeholder law: when a `${{` is never closed, the opening
/// delimiter itself is dropped and the rest of the text is kept verbatim; no
/// error is raised.
pub proof fn lemma_unterminated_placeholder(
    vars: Map<Seq<char>, ValueView>,
    pre: Seq<char>,
    rest: Seq<char>,
)
    requires
        !contains_pat(pre, open_delim()),
        !contains_pat(rest, open_delim()),
        !contains_pat(rest, close_delim()),
    ensures
        substitute_spec(vars, pre + open_delim() + rest) == pre + rest,
{
    let text = pre + open_delim() + rest;
    let pl = pre.len() as int;
    lemma_first_open(pre, rest);
    assert(text.subrange(0, pl) =~= pre);
    assert(text.subrange(pl + open_delim().len(), text.len() as int) =~= rest);
    lemma_expand_single(vars, rest);
    lemma_find_pat_characterization(rest, close_delim());
    if let Some(i) = find_pat(rest, close_delim()) {
        assert(contains_pat(rest, close_delim()));
    }
}

} // verus!
