//! The text side of launching the game: the parameter line for the elevated
//! `ShellExecuteExW` fallback and the messages shown when spawning fails.

use vstd::prelude::*;
use vstd::string::StringExecFns;
use crate::paths::views;
use crate::text::{chars_of, push_char};
use crate::tray::{utf16_encode, wide};

verus! {

broadcast use vstd::string::group_string_axioms;

/// The argument must be quoted: it holds a space, a tab or a double quote.
pub open spec fn needs_quotes(a: Seq<char>) -> bool {
    a.contains(' ') || a.contains('\t') || a.contains('"')
}

/// `a` with every `"` written as `\"`.
pub open spec fn escape_quotes(a: Seq<char>) -> Seq<char>
    decreases a.len(),
{
    if a.len() == 0 {
        Seq::empty()
    } else {
        escape_quotes(a.drop_last()) + (if a.last() == '"' {
            seq!['\\', '"']
        } else {
            seq![a.last()]
        })
    }
}

/// One argument as it appears on the parameter line.
pub open spec fn quote_arg(a: Seq<char>) -> Seq<char> {
    if needs_quotes(a) {
        seq!['"'] + escape_quotes(a) + seq!['"']
    } else {
        a
    }
}

/// The quoted arguments separated by single spaces.
pub open spec fn join_params(args: Seq<Seq<char>>) -> Seq<char>
    decreases args.len(),
{
    if args.len() == 0 {
        Seq::empty()
    } else if args.len() == 1 {
        quote_arg(args[0])
    } else {
        join_params(args.drop_last()) + seq![' '] + quote_arg(args.last())
    }
}

/// The parameter line for `ShellExecuteExW`; none when there are no arguments.
pub open spec fn spec_shell_parameters(args: Seq<Seq<char>>) -> Option<Seq<char>> {
    if args.len() == 0 {
        None
    } else {
        Some(join_params(args))
    }
}

fn quote_argument(arg: &str) -> (q: String)
    ensures
        q@ == quote_arg(arg@),
{
    let chars = chars_of(arg);
    let mut needs = false;
    let mut i: usize = 0;
    while i < chars.len()
        invariant
            i <= chars.len(),
            chars@ == arg@,
            needs == (chars@.take(i as int).contains(' ') || chars@.take(i as int).contains('\t')
                || chars@.take(i as int).contains('"')),
        decreases chars.len() - i,
    {
        let c = chars[i];
        proof {
            let t = chars@.take(i + 1);
            assert(t == chars@.take(i as int).push(c));
            assert(t[i as int] == c);
            assert(forall|x: char| t.contains(x) <==> (chars@.take(i as int).contains(x) || x == c))
                by {
                assert forall|x: char| t.contains(x) implies (chars@.take(i as int).contains(x) || x
                    == c) by {
                    let k = choose|k: int| 0 <= k < t.len() && t[k] == x;
                    if k < i {
                        assert(chars@.take(i as int)[k] == x);
                    }
                }
                assert forall|x: char| chars@.take(i as int).contains(x) implies t.contains(x) by {
                    let k = choose|k: int| 0 <= k < i && chars@.take(i as int)[k] == x;
                    assert(t[k] == x);
                }
            }
        }
        if c == ' ' || c == '\t' || c == '"' {
            needs = true;
        }
        i = i + 1;
    }
    assert(chars@.take(chars.len() as int) =~= arg@);
    if !needs {
        return arg.to_owned();
    }
    let mut q = String::new();
    push_char(&mut q, '"');
    let mut j: usize = 0;
    while j < chars.len()
        invariant
            j <= chars.len(),
            chars@ == arg@,
            q@ == seq!['"'] + escape_quotes(chars@.take(j as int)),
        decreases chars.len() - j,
    {
        let c = chars[j];
        assert(chars@.take(j + 1).drop_last() =~= chars@.take(j as int));
        if c == '"' {
            push_char(&mut q, '\\');
            push_char(&mut q, '"');
        } else {
            push_char(&mut q, c);
        }
        j = j + 1;
        assert(q@ =~= seq!['"'] + escape_quotes(chars@.take(j as int)));
    }
    push_char(&mut q, '"');
    assert(chars@.take(chars.len() as int) =~= arg@);
    q
}

/// The parameter line for launching the game through `ShellExecuteExW`:
/// arguments holding a space, tab or `"` are wrapped in quotes with their
/// `"` escaped, and all are joined by spaces; `None` without arguments.
pub fn shell_execute_parameters(game_args: &[String]) -> (params: Option<String>)
    ensures
        params matches Some(p) ==> spec_shell_parameters(views(game_args@)) == Some(p@),
        params is None <==> spec_shell_parameters(views(game_args@)) is None,
{
    if game_args.len() == 0 {
        return None;
    }
    let ghost av = views(game_args@);
    let mut params = quote_argument(game_args[0].as_str());
    let mut i: usize = 1;
    while i < game_args.len()
        invariant
            1 <= i <= game_args.len(),
            av == views(game_args@),
            params@ == join_params(av.take(i as int)),
        decreases game_args.len() - i,
    {
        assert(av.take(i + 1).drop_last() =~= av.take(i as int));
        push_char(&mut params, ' ');
        let quoted = quote_argument(game_args[i].as_str());
        params.append(quoted.as_str());
        i = i + 1;
        assert(params@ =~= join_params(av.take(i as int)));
    }
    assert(av.take(game_args.len() as int) =~= av);
    Some(params)
}

/// The line logged when the game cannot be spawned.
pub fn spawn_error_log_line(game_exe: &str, error: &str) -> (line: String)
    ensures
        line@ == "[ERROR] Failed to spawn game process "@ + game_exe@ + ": "@ + error@,
{
    let mut line = "[ERROR] Failed to spawn game process ".to_owned();
    line.append(game_exe);
    line.append(": ");
    line.append(error);
    line
}

/// The text of the message box shown when the game cannot be spawned.
pub open spec fn spawn_error_text(game_exe: Seq<char>, error: Seq<char>) -> Seq<char> {
    "Failed to spawn game process:\n"@ + game_exe + "\n\nError: "@ + error
}

/// The NUL-terminated UTF-16 text and caption of the error message box shown
/// when the game cannot be spawned; the caller displays them.
pub fn show_error_message_box(game_exe: &str, error: &str) -> (r: (Vec<u16>, Vec<u16>))
    ensures
        r.0@ == utf16_encode(spawn_error_text(game_exe@, error@)).push(0),
        r.1@ == utf16_encode("fk_kuro_launcher Error"@).push(0),
{
    let mut message = "Failed to spawn game process:\n".to_owned();
    message.append(game_exe);
    message.append("\n\nError: ");
    message.append(error);
    (wide(message.as_str()), wide("fk_kuro_launcher Error"))
}

} // verus!
