//! Construction of the command text that opens a visible terminal running a
//! script: a detached-console command line for the platform whose spawner
//! suppresses windows by default, and a scripting-language text for the
//! platform whose terminal is driven by one.

use vstd::prelude::*;
use vstd::string::StrSliceExecFns;
use vstd::string::StringExecFns;

verus! {

/// The shell-safe image of `s` inside single quotes: each `'` becomes
/// `'\''` (close the quote, escape one `'`, reopen the quote).
pub open spec fn shell_escaped(s: Seq<char>) -> Seq<char>
    decreases s.len(),
{
    if s.len() == 0 {
        Seq::empty()
    } else if s[0] == '\'' {
        seq!['\'', '\\', '\'', '\''] + shell_escaped(s.drop_first())
    } else {
        seq![s[0]] + shell_escaped(s.drop_first())
    }
}

/// Escapes `s` for embedding between single quotes in shell text.
pub fn shell_escape(s: &str) -> (r: String)
    ensures
        r@ == shell_escaped(s@),
{
    let n = s.unicode_len();
    let mut r = String::new();
    let mut i: usize = 0;
    proof {
        assert(s@.subrange(0, n as int) =~= s@);
        assert(Seq::<char>::empty() + shell_escaped(s@) =~= shell_escaped(s@));
    }
    while i < n
        invariant
            i <= n,
            n == s@.len(),
            shell_escaped(s@) == r@ + shell_escaped(s@.subrange(i as int, n as int)),
        decreases n - i,
    {
        let ghost suf = s@.subrange(i as int, n as int);
        proof {
            assert(suf.first() == s@[i as int]);
            assert(suf.drop_first() =~= s@.subrange(i + 1, n as int));
        }
        let c = s.get_char(i);
        if c == '\'' {
            r.append("'\\''");
            proof {
                reveal_strlit("'\\''");
                assert("'\\''"@ =~= seq!['\'', '\\', '\'', '\'']);
                assert(r@ + shell_escaped(s@.subrange(i + 1, n as int)) =~= shell_escaped(s@))
                    by {
                    assert(shell_escaped(suf) == seq!['\'', '\\', '\'', '\''] + shell_escaped(
                        suf.drop_first(),
                    ));
                }
            }
        } else {
            let piece = s.substring_char(i, i + 1);
            r.append(piece);
            proof {
                assert(piece@ =~= seq![s@[i as int]]);
                assert(r@ + shell_escaped(s@.subrange(i + 1, n as int)) =~= shell_escaped(s@))
                    by {
                    assert(shell_escaped(suf) == seq![suf.first()] + shell_escaped(
                        suf.drop_first(),
                    ));
                }
            }
        }
        i += 1;
    }
    proof {
        assert(shell_escaped(s@.subrange(n as int, n as int)) =~= Seq::<char>::empty());
        assert(r@ + Seq::<char>::empty() =~= r@);
    }
    r
}

/// The raw command line that launches a detached visible console running the
/// script: the `start` helper detaches the interpreter fully, so it is not
/// torn down with its parent.  The script reference is embedded between
/// plain double quotes, so the caller must hand a trusted, pre-validated
/// path.
pub open spec fn detached_launch_spec(script: Seq<char>) -> Seq<char> {
    "/c start \"Deploy\" powershell.exe -NoExit -ExecutionPolicy Bypass -File \""@ + script
        + "\""@
}

/// Builds the detached-console command line for a script reference.
pub fn detached_launch_line(script: &str) -> (r: String)
    ensures
        r@ == detached_launch_spec(script@),
{
    let mut r = "/c start \"Deploy\" powershell.exe -NoExit -ExecutionPolicy Bypass -File \""
        .to_owned();
    r.append(script);
    r.append("\"");
    proof {
        assert(r@ =~= detached_launch_spec(script@));
    }
    r
}

/// The scripting text that asks the terminal application to open a window
/// and run the script; the script reference stands shell-escaped inside
/// single quotes.
pub open spec fn terminal_script_spec(script: Seq<char>) -> Seq<char> {
    "tell application \"Terminal\"\n            activate\n            do script \"bash '"@
        + shell_escaped(script) + "'\"\n        end tell"@
}

/// Builds the terminal scripting text for a script reference.
pub fn terminal_script(script: &str) -> (r: String)
    ensures
        r@ == terminal_script_spec(script@),
{
    let mut r =
        "tell application \"Terminal\"\n            activate\n            do script \"bash '"
        .to_owned();
    let escaped = shell_escape(script);
    r.append(escaped.as_str());
    r.append("'\"\n        end tell");
    proof {
        assert(r@ =~= terminal_script_spec(script@));
    }
    r
}

} // verus!
