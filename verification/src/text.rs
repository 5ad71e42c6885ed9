//! Small verified helpers on strings.

use vstd::prelude::*;
use vstd::string::{StrSliceExecFns, StringExecFns, StringSliceAdditionalSpecFns};

verus! {

/// Whether two strings hold the same characters.
pub fn str_eq(a: &str, b: &str) -> (same: bool)
    ensures
        same == (a@ == b@),
{
    let x = a.as_bytes();
    let y = b.as_bytes();
    proof {
        vstd::utf8::encode_utf8_decode_utf8(a@);
        vstd::utf8::encode_utf8_decode_utf8(b@);
    }
    if x.len() != y.len() {
        return false;
    }
    let mut i: usize = 0;
    while i < x.len()
        invariant
            x@.len() == y@.len(),
            i <= x@.len(),
            x@.subrange(0, i as int) == y@.subrange(0, i as int),
            x@ == a.spec_bytes(),
            y@ == b.spec_bytes(),
            vstd::utf8::decode_utf8(a.spec_bytes()) == a@,
            vstd::utf8::decode_utf8(b.spec_bytes()) == b@,
        decreases x@.len() - i,
    {
        if x[i] != y[i] {
            return false;
        }
        assert(x@.subrange(0, i + 1) == x@.subrange(0, i as int).push(x@[i as int]));
        assert(y@.subrange(0, i + 1) == y@.subrange(0, i as int).push(y@[i as int]));
        i += 1;
    }
    assert(x@ == x@.subrange(0, i as int));
    assert(y@ == y@.subrange(0, i as int));
    true
}

/// The characters of a string, in order.
pub fn chars_of(s: &str) -> (chars: Vec<char>)
    ensures
        chars@ == s@,
{
    let mut chars: Vec<char> = Vec::new();
    for c in it: s.chars()
        invariant
            it.seq() == s@,
            chars@ == it.seq().take(it.index() as int),
    {
        chars.push(c);
    }
    chars
}

/// Whether a shell would not take `arg` as one word as it stands: it is
/// empty or holds a space or a quote.
pub open spec fn needs_quoting(arg: Seq<char>) -> bool {
    arg.len() == 0 || arg.contains(' ') || arg.contains('\'') || arg.contains('"')
}

/// `arg` with each single quote replaced by `'\''`, which closes a quoted
/// word, adds a quote and opens the word again.
pub open spec fn escaped(arg: Seq<char>) -> Seq<char>
    decreases arg.len(),
{
    if arg.len() == 0 {
        Seq::empty()
    } else if arg.last() == '\'' {
        escaped(arg.drop_last()) + "'\\''"@
    } else {
        escaped(arg.drop_last()).push(arg.last())
    }
}

/// `arg` as a shell would have to be given it: in single quotes where it
/// needs quoting, and as it is otherwise.
pub open spec fn quoted(arg: Seq<char>) -> Seq<char> {
    if needs_quoting(arg) {
        seq!['\''] + escaped(arg) + seq!['\'']
    } else {
        arg
    }
}

/// The arguments, each quoted where it needs it, with a space between
/// any two of them.
pub open spec fn shell_joined(args: Seq<Seq<char>>) -> Seq<char>
    decreases args.len(),
{
    if args.len() == 0 {
        Seq::empty()
    } else if args.len() == 1 {
        quoted(args[0])
    } else {
        shell_joined(args.drop_last()) + seq![' '] + quoted(args.last())
    }
}

/// Whether `arg` is empty or holds a space or a quote.
fn wants_quotes(chars: &Vec<char>) -> (wanted: bool)
    ensures
        wanted == needs_quoting(chars@),
{
    if chars.len() == 0 {
        return true;
    }
    let mut i: usize = 0;
    while i < chars.len()
        invariant
            i <= chars.len(),
            forall|k: int| 0 <= k < i ==> chars@[k] != ' ' && chars@[k] != '\'' && chars@[k] != '"',
        decreases chars.len() - i,
    {
        let c = chars[i];
        if c == ' ' || c == '\'' || c == '"' {
            assert(chars@.contains(chars@[i as int]));
            return true;
        }
        i += 1;
    }
    false
}

/// Appends `arg` to `out`, quoted where it needs it.
fn append_quoted(out: &mut String, arg: &str)
    ensures
        final(out)@ == old(out)@ + quoted(arg@),
{
    let chars = chars_of(arg);
    if !wants_quotes(&chars) {
        out.append(arg);
        return ;
    }
    proof {
        reveal_strlit("'");
        reveal_strlit("'\\''");
    }
    out.append("'");
    let mut i: usize = 0;
    assert(chars@.take(0) =~= Seq::<char>::empty());
    assert(out@ =~= old(out)@ + seq!['\''] + escaped(chars@.take(0)));
    while i < chars.len()
        invariant
            i <= chars.len(),
            chars@ == arg@,
            out@ == old(out)@ + seq!['\''] + escaped(chars@.take(i as int)),
        decreases chars.len() - i,
    {
        let ghost done = escaped(chars@.take(i as int));
        proof {
            assert(chars@.take(i + 1).drop_last() =~= chars@.take(i as int));
            assert(chars@.take(i + 1).last() == chars@[i as int]);
        }
        if chars[i] == '\'' {
            out.append("'\\''");
            proof {
                assert(out@ =~= old(out)@ + seq!['\''] + (done + "'\\''"@));
            }
        } else {
            out.append(arg.substring_char(i, i + 1));
            proof {
                assert(arg@.subrange(i as int, i + 1) =~= seq![chars@[i as int]]);
                assert(out@ =~= old(out)@ + seq!['\''] + done.push(chars@[i as int]));
            }
        }
        i += 1;
    }
    proof {
        assert(chars@.take(i as int) =~= chars@);
    }
    out.append("'");
    proof {
        assert(out@ =~= old(out)@ + (seq!['\''] + escaped(arg@) + seq!['\'']));
    }
}

/// Join args into a shell-like representation for logging.
pub fn shell_join(args: &[String]) -> (line: String)
    ensures
        line@ == shell_joined(args.deep_view()),
{
    let mut line = String::new();
    let mut i: usize = 0;
    proof {
        reveal_strlit(" ");
        assert(args.deep_view().take(0) =~= Seq::<Seq<char>>::empty());
    }
    while i < args.len()
        invariant
            i <= args.len(),
            " "@ == seq![' '],
            line@ == shell_joined(args.deep_view().take(i as int)),
        decreases args.len() - i,
    {
        let ghost seen = args.deep_view().take(i as int);
        let ghost before = line@;
        proof {
            assert(args.deep_view().take(i + 1).drop_last() =~= seen);
            assert(args.deep_view().take(i + 1).last() == args@[i as int]@);
            assert(args.deep_view().take(i + 1)[0] == args.deep_view()[0]);
        }
        if i > 0 {
            line.append(" ");
        }
        append_quoted(&mut line, args[i].as_str());
        proof {
            if i == 0 {
                assert(before =~= Seq::<char>::empty());
                assert(line@ =~= quoted(args@[0]@));
            } else {
                assert(line@ =~= before + seq![' '] + quoted(args@[i as int]@));
            }
        }
        i += 1;
    }
    proof {
        assert(args.deep_view().take(i as int) =~= args.deep_view());
    }
    line
}

} // verus!
