//! Names of executables as the package system lays them out.
//!
//! The package system wraps an executable by renaming it: each layer of
//! wrapping puts a `.` in front of the name and `-wrapped` behind it. The
//! functions here undo that, so that a wrapped compiler is recognised by
//! the name of the compiler.

use vstd::prelude::*;
use vstd::string::{StrSliceExecFns, StringExecFns};
use crate::text::chars_of;

verus! {

/// What one layer of wrapping puts behind a name.
pub open spec fn wrapper_suffix() -> Seq<char> {
    "-wrapped"@
}

/// Whether `text` ends with `suffix`.
pub open spec fn ends_with(text: Seq<char>, suffix: Seq<char>) -> bool {
    &&& text.len() >= suffix.len()
    &&& text.subrange(text.len() - suffix.len(), text.len() as int) == suffix
}

/// Whether `name` carries at least one layer of wrapping: it starts with
/// `.` and ends with `-wrapped`.
pub open spec fn is_wrapped(name: Seq<char>) -> bool {
    &&& name.len() > 0
    &&& name[0] == '.'
    &&& ends_with(name, wrapper_suffix())
}

/// `name` without one leading `.` and one trailing `-wrapped`.
pub open spec fn strip_layer(name: Seq<char>) -> Seq<char> {
    name.subrange(1, name.len() - wrapper_suffix().len())
}

/// `name` with every matched pair of a leading `.` and a trailing
/// `-wrapped` removed, from the outside in, until one side no longer
/// matches.
pub open spec fn unwrapped(name: Seq<char>) -> Seq<char>
    decreases name.len(),
    via unwrapped_terminates
{
    if is_wrapped(name) {
        unwrapped(strip_layer(name))
    } else {
        name
    }
}

#[via_fn]
proof fn unwrapped_terminates(name: Seq<char>) {
    if is_wrapped(name) {
        lemma_wrapped_is_long(name);
    }
}

/// Index of the last `/` in `path`, or -1 if it holds none.
pub open spec fn last_separator(path: Seq<char>) -> int
    decreases path.len(),
{
    if path.len() == 0 {
        -1
    } else if path.last() == '/' {
        path.len() - 1
    } else {
        last_separator(path.drop_last())
    }
}

/// What follows the last `/` of `path`; all of `path` if it holds no `/`.
pub open spec fn basename(path: Seq<char>) -> Seq<char> {
    path.skip(last_separator(path) + 1)
}

/// The canonical program name for `path`: its basename, unwrapped.
pub open spec fn resolved(path: Seq<char>) -> Seq<char> {
    unwrapped(basename(path))
}

/// A wrapped name is longer than `.` and `-wrapped` together, since the
/// two cannot overlap.
pub proof fn lemma_wrapped_is_long(name: Seq<char>)
    requires
        is_wrapped(name),
    ensures
        wrapper_suffix().len() == 8,
        name.len() >= 9,
        strip_layer(name).len() == name.len() - 9,
{
    reveal_strlit("-wrapped");
    if name.len() == 8 {
        assert(name.subrange(0, 8)[0] == name[0]);
    }
    assert(strip_layer(name).len() == name.len() - 9);
}

/// The last separator is a `/` with no `/` after it.
pub proof fn lemma_last_separator(path: Seq<char>)
    ensures
        -1 <= last_separator(path) < path.len(),
        last_separator(path) >= 0 ==> path[last_separator(path)] == '/',
        forall|i: int| last_separator(path) < i < path.len() ==> path[i] != '/',
    decreases path.len(),
{
    if path.len() > 0 && path.last() != '/' {
        lemma_last_separator(path.drop_last());
        assert forall|i: int| last_separator(path) < i < path.len() implies path[i] != '/' by {
            if i < path.len() - 1 {
                assert(path[i] == path.drop_last()[i]);
            }
        }
    }
}

/// Whether the characters of `chars` from `start` up to `end` end with
/// `suffix`.
fn ends_with_between(chars: &Vec<char>, start: usize, end: usize, suffix: &Vec<char>) -> (found:
    bool)
    requires
        start <= end <= chars.len(),
    ensures
        found == ends_with(chars@.subrange(start as int, end as int), suffix@),
{
    let n = suffix.len();
    if n > end - start {
        return false;
    }
    let from = end - n;
    let ghost text = chars@.subrange(start as int, end as int);
    let ghost tail = text.subrange(text.len() - n, text.len() as int);
    let mut i: usize = 0;
    while i < n
        invariant
            n == suffix.len(),
            start <= from,
            from + n == end,
            end <= chars.len(),
            i <= n,
            text == chars@.subrange(start as int, end as int),
            tail == text.subrange(text.len() - n, text.len() as int),
            forall|k: int| 0 <= k < i ==> tail[k] == suffix@[k],
        decreases n - i,
    {
        assert(tail[i as int] == chars@[from + i]);
        if chars[from + i] != suffix[i] {
            return false;
        }
        i += 1;
    }
    assert(tail == suffix@);
    true
}

/// Unwrap a wrapped executable name by stripping matched pairs of leading
/// `.` and trailing `-wrapped`.
///
/// - `.gcc-wrapped` becomes `gcc`
/// - `..gcc-wrapped-wrapped` becomes `gcc`
///
/// Names without matching pairs are left unchanged:
/// - `.hidden-file` stays `.hidden-file`
/// - `gcc-wrapped` (no leading `.`) stays `gcc-wrapped`
pub fn unwrap_nix_name(name: &str) -> (plain: &str)
    ensures
        plain@ == unwrapped(name@),
{
    let chars = chars_of(name);
    let suffix = chars_of("-wrapped");
    let mut lo: usize = 0;
    let mut hi: usize = chars.len();
    assert(chars@.subrange(0, hi as int) == chars@);
    while lo < hi && chars[lo] == '.' && ends_with_between(&chars, lo, hi, &suffix)
        invariant
            lo <= hi <= chars.len(),
            suffix@ == wrapper_suffix(),
            unwrapped(chars@) == unwrapped(chars@.subrange(lo as int, hi as int)),
        decreases hi - lo,
    {
        proof {
            let rest = chars@.subrange(lo as int, hi as int);
            assert(rest[0] == chars@[lo as int]);
            lemma_wrapped_is_long(rest);
            assert(strip_layer(rest) == chars@.subrange(lo + 1, hi - 8));
        }
        lo += 1;
        hi -= 8;
    }
    proof {
        let rest = chars@.subrange(lo as int, hi as int);
        if lo < hi {
            assert(rest[0] == chars@[lo as int]);
        }
        assert(!is_wrapped(rest));
    }
    name.substring_char(lo, hi)
}

/// Extract the basename from a path and unwrap wrapper names.
pub fn resolve_basename(path: &str) -> (name: &str)
    ensures
        name@ == resolved(path@),
{
    let chars = chars_of(path);
    let mut start: usize = chars.len();
    while start > 0 && chars[start - 1] != '/'
        invariant
            start <= chars.len(),
            forall|i: int| start <= i < chars.len() ==> chars@[i] != '/',
        decreases start,
    {
        start -= 1;
    }
    proof {
        lemma_last_separator(chars@);
    }
    unwrap_nix_name(path.substring_char(start, chars.len()))
}

/// The tokens that the NUL bytes of `data` separate: one more than there
/// are NUL bytes.
pub open spec fn split_nul(data: Seq<u8>) -> Seq<Seq<u8>>
    decreases data.len(),
{
    if data.len() == 0 {
        seq![Seq::empty()]
    } else {
        let front = split_nul(data.drop_last());
        if data.last() == 0 {
            front.push(Seq::empty())
        } else {
            front.drop_last().push(front.last().push(data.last()))
        }
    }
}

/// The arguments that a command line holds, as bytes: its NUL-separated
/// tokens without the last one where that is empty, as it is after the
/// NUL that ends the last argument.
pub open spec fn cmdline_tokens(data: Seq<u8>) -> Seq<Seq<u8>> {
    let tokens = split_nul(data);
    if tokens.last().len() == 0 {
        tokens.drop_last()
    } else {
        tokens
    }
}

/// The text that `String::from_utf8_lossy` makes of `bytes`.
pub uninterp spec fn utf8_lossy(bytes: Seq<u8>) -> Seq<char>;

/// `args` with its first element, if it has one, resolved to a canonical
/// program name.
pub open spec fn with_resolved_program(args: Seq<Seq<char>>) -> Seq<Seq<char>> {
    if args.len() == 0 {
        args
    } else {
        args.update(0, resolved(args[0]))
    }
}

/// The argv that the command line `data` describes: its tokens as text,
/// the first of them resolved to a canonical program name.
pub open spec fn cmdline_args(data: Seq<u8>) -> Seq<Seq<char>> {
    with_resolved_program(cmdline_tokens(data).map_values(|token: Seq<u8>| utf8_lossy(token)))
}

/// Calls `String::from_utf8_lossy` and takes the result as an owned
/// string: the text of `bytes`, with each invalid sequence replaced as
/// that function documents.
#[verifier::external_body]
fn string_from_utf8_lossy(bytes: &[u8]) -> (text: String)
    ensures
        text@ == utf8_lossy(bytes@),
{
    String::from_utf8_lossy(bytes).into_owned()
}

/// The contents of each of `tokens`.
pub open spec fn contents(tokens: Seq<Vec<u8>>) -> Seq<Seq<u8>> {
    tokens.map_values(|token: Vec<u8>| token@)
}

/// Splits a command line, as the kernel shows it, into its NUL-separated
/// tokens, dropping the empty token behind the last NUL.
pub fn split_cmdline(data: &[u8]) -> (tokens: Vec<Vec<u8>>)
    ensures
        contents(tokens@) == cmdline_tokens(data@),
{
    let mut tokens: Vec<Vec<u8>> = Vec::new();
    let mut current: Vec<u8> = Vec::new();
    let mut i: usize = 0;
    assert(data@.take(0) =~= Seq::<u8>::empty());
    assert(contents(tokens@).push(current@) =~= seq![Seq::<u8>::empty()]);
    while i < data.len()
        invariant
            i <= data.len(),
            split_nul(data@.take(i as int)) == contents(tokens@).push(current@),
        decreases data.len() - i,
    {
        let ghost done = contents(tokens@);
        let ghost open = current@;
        let byte = data[i];
        proof {
            assert(data@.take(i + 1).drop_last() =~= data@.take(i as int));
            assert(data@.take(i + 1).last() == byte);
            assert(done.push(open).drop_last() =~= done);
        }
        if byte == 0 {
            tokens.push(current);
            current = Vec::new();
            proof {
                assert(contents(tokens@) =~= done.push(open));
            }
        } else {
            current.push(byte);
        }
        i += 1;
    }
    proof {
        assert(data@.take(i as int) =~= data@);
        assert(contents(tokens@).push(current@).drop_last() =~= contents(tokens@));
    }
    if current.len() > 0 {
        let ghost done = contents(tokens@);
        let ghost open = current@;
        tokens.push(current);
        proof {
            assert(contents(tokens@) =~= done.push(open));
        }
    }
    tokens
}

/// Replaces the first element of `args`, if there is one, by its
/// canonical program name.
pub fn resolve_program(args: Vec<String>) -> (resolved_args: Vec<String>)
    ensures
        resolved_args.deep_view() == with_resolved_program(args.deep_view()),
{
    let mut args = args;
    if args.len() > 0 {
        let ghost before = args.deep_view();
        let program = String::from_str(resolve_basename(args[0].as_str()));
        args.set(0, program);
        proof {
            assert(args.deep_view() =~= before.update(0, resolved(before[0])));
        }
    }
    args
}

/// The argv of a process, given the contents of its `cmdline` file: the
/// NUL-separated arguments as text, the first of them resolved to its
/// unwrapped basename.
pub fn parse_cmdline(data: &[u8]) -> (args: Vec<String>)
    ensures
        args.deep_view() == cmdline_args(data@),
{
    let tokens = split_cmdline(data);
    let mut args: Vec<String> = Vec::new();
    let mut i: usize = 0;
    let ghost texts = cmdline_tokens(data@).map_values(|token: Seq<u8>| utf8_lossy(token));
    while i < tokens.len()
        invariant
            i <= tokens.len(),
            contents(tokens@) == cmdline_tokens(data@),
            texts == cmdline_tokens(data@).map_values(|token: Seq<u8>| utf8_lossy(token)),
            args.deep_view() == texts.take(i as int),
        decreases tokens.len() - i,
    {
        let ghost shown = args.deep_view();
        let text = string_from_utf8_lossy(tokens[i].as_slice());
        proof {
            assert(contents(tokens@)[i as int] == tokens[i as int]@);
        }
        args.push(text);
        proof {
            assert(args.deep_view() =~= shown.push(text@));
            assert(texts.take(i + 1) =~= texts.take(i as int).push(texts[i as int]));
        }
        i += 1;
    }
    proof {
        assert(texts.take(i as int) =~= texts);
    }
    resolve_program(args)
}

} // verus!
