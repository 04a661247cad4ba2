//! The substitution engine: a pure, total rewrite of one text.
//!
//! The text is split on every occurrence of the opening delimiter `${{`. The
//! part before the first delimiter is copied verbatim. Every later part is
//! scanned for the closing delimiter `}}`: if it is found, the part up to it
//! names a variable, whose value (or an inline `UNKNOWN VARIABLE` marker) is
//! emitted, followed by the remainder of the part with every `}}` removed; if
//! it is not found, the part is copied verbatim and the consumed `${{` is
//! lost. The engine never rescans its own output, so substitution is a single
//! pass and a substituted value is never expanded further.

use vstd::prelude::*;

use crate::table::{Table, Value, ValueView};
use crate::text::{find_pat, find_sub, lemma_find_pat_in_range};

verus! {

/// The opening delimiter `${{`.
pub open spec fn open_delim() -> Seq<char> {
    seq!['$', '{', '{']
}

/// The closing delimiter `}}`.
pub open spec fn close_delim() -> Seq<char> {
    seq!['}', '}']
}

/// The inline marker emitted for a placeholder naming an unbound variable.
pub open spec fn marker(var: Seq<char>) -> Seq<char> {
    "UNKNOWN VARIABLE '"@ + var + "'"@
}

/// The string literals for the delimiters denote exactly the delimiter
/// sequences.
pub proof fn lemma_delims()
    ensures
        "${{"@ == open_delim(),
        "}}"@ == close_delim(),
        open_delim().len() == 3,
        close_delim().len() == 2,
{
    reveal_strlit("${{");
    reveal_strlit("}}");
    assert("${{"@ =~= open_delim());
    assert("}}"@ =~= close_delim());
}

/// `t` with every occurrence of `}}` removed, leftmost first.
pub open spec fn strip_close(t: Seq<char>) -> Seq<char>
    decreases t.len(),
{
    proof {
        lemma_find_pat_in_range(t, close_delim());
    }
    match find_pat(t, close_delim()) {
        None => t,
        Some(i) => t.subrange(0, i) + strip_close(
            t.subrange(i + close_delim().len(), t.len() as int),
        ),
    }
}

/// The output for one part that followed an opening delimiter: the value (or
/// marker) for the variable named before the first `}}`, then the rest of the
/// part with every `}}` removed; or the part verbatim if it has no `}}`.
pub open spec fn fragment_output(vars: Map<Seq<char>, ValueView>, frag: Seq<char>) -> Seq<char> {
    match find_pat(frag, close_delim()) {
        None => frag,
        Some(i) => {
            let var = frag.subrange(0, i);
            let tail = frag.subrange(i, frag.len() as int);
            let key = strip_close(var);
            let sub = if vars.contains_key(key) && vars[key] is Str {
                vars[key]->Str_0
            } else {
                marker(var)
            };
            sub + strip_close(tail)
        },
    }
}

/// The concatenated outputs of every part of `rest`, where `rest` is the text
/// that followed an opening delimiter and parts are separated by further
/// opening delimiters.
pub open spec fn expand_fragments(vars: Map<Seq<char>, ValueView>, rest: Seq<char>) -> Seq<char>
    decreases rest.len(),
{
    proof {
        lemma_find_pat_in_range(rest, open_delim());
    }
    match find_pat(rest, open_delim()) {
        None => fragment_output(vars, rest),
        Some(i) => fragment_output(vars, rest.subrange(0, i)) + expand_fragments(
            vars,
            rest.subrange(i + open_delim().len(), rest.len() as int),
        ),
    }
}

/// The whole rewrite of `text` under `vars`: the part before the first `${{`
/// verbatim, then the output of every delimited part.
pub open spec fn substitute_spec(vars: Map<Seq<char>, ValueView>, text: Seq<char>) -> Seq<char> {
    match find_pat(text, open_delim()) {
        None => text,
        Some(i) => text.subrange(0, i) + expand_fragments(
            vars,
            text.subrange(i + open_delim().len(), text.len() as int),
        ),
    }
}

/// The inline marker for the unbound variable `var`, as a string.
fn marker_string(var: &str) -> (out: String)
    ensures
        out@ == marker(var@),
{
    let mut out = "UNKNOWN VARIABLE '".to_owned();
    out.append(var);
    out.append("'");
    proof {
        assert(out@ =~= marker(var@));
    }
    out
}

/// `s` with every occurrence of `}}` removed, leftmost first.
fn strip_close_exec(s: &str) -> (out: String)
    ensures
        out@ == strip_close(s@),
    decreases s@.len(),
{
    proof {
        lemma_delims();
    }
    let n = s.unicode_len();
    match find_sub(s, "}}") {
        None => s.to_owned(),
        Some(i) => {
            proof {
                lemma_find_pat_in_range(s@, close_delim());
            }
            let mut out = s.substring_char(0, i).to_owned();
            out.append(strip_close_exec(s.substring_char(i + 2, n)).as_str());
            out
        },
    }
}

/// The output for one part that followed an opening delimiter.
fn fragment_output_exec(vars: &Table, frag: &str) -> (out: String)
    ensures
        out@ == fragment_output(vars@, frag@),
{
    proof {
        lemma_delims();
    }
    let n = frag.unicode_len();
    match find_sub(frag, "}}") {
        None => frag.to_owned(),
        Some(i) => {
            proof {
                lemma_find_pat_in_range(frag@, close_delim());
            }
            let var = frag.substring_char(0, i);
            let tail = frag.substring_char(i, n);
            let key = strip_close_exec(var);
            let mut out: String = match vars.get(key.as_str()) {
                Some(v) => match v {
                    Value::Str(s) => s.clone(),
                    Value::Other => marker_string(var),
                },
                None => marker_string(var),
            };
            out.append(strip_close_exec(tail).as_str());
            out
        },
    }
}

/// The concatenated outputs of every part of `rest`, a text that followed an
/// opening delimiter.
fn expand_fragments_exec(vars: &Table, rest: &str) -> (out: String)
    ensures
        out@ == expand_fragments(vars@, rest@),
    decreases rest@.len(),
{
    proof {
        lemma_delims();
    }
    let n = rest.unicode_len();
    match find_sub(rest, "${{") {
        None => fragment_output_exec(vars, rest),
        Some(i) => {
            proof {
                lemma_find_pat_in_range(rest@, open_delim());
            }
            let mut out = fragment_output_exec(vars, rest.substring_char(0, i));
            out.append(expand_fragments_exec(vars, rest.substring_char(i + 3, n)).as_str());
            out
        },
    }
}

/// Rewrite `content` under `vars`: every `${{name}}` placeholder becomes the
/// string value bound to `name`, or an inline `UNKNOWN VARIABLE` marker when
/// `name` is unbound or bound to a non-string value. Pure and total: no input
/// is rejected.
pub fn substitute_variables(vars: &Table, content: &str) -> (out: String)
    ensures
        out@ == substitute_spec(vars@, content@),
{
    proof {
        lemma_delims();
    }
    let n = content.unicode_len();
    match find_sub(content, "${{") {
        None => content.to_owned(),
        Some(i) => {
            proof {
                lemma_find_pat_in_range(content@, open_delim());
            }
            let mut out = content.substring_char(0, i).to_owned();
            out.append(expand_fragments_exec(vars, content.substring_char(i + 3, n)).as_str());
            out
        },
    }
}

} // verus!
