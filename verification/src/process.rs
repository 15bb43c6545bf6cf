//! What commands printed and how they ended.
use crate::failure::{
    bad_sha_text, cannot_spawn_text, capture_failed_text, command_failed_text, missing_tools_text,
    patch_failed_text, patch_missing_text, Failure,
};
use crate::lines::{char_rows, vec_bare_lines};
use crate::plan::{command, command_in, shown_command, Command};
use crate::text::{
    bare_lines, chars_of, ends_in, first_word, is_hex_digit, joined_with, range_of, slices,
    string_of, texts,
};
use crate::words::{cat2, cat3, join_with, vec_first_word};
use vstd::prelude::*;

verus! {

// ---------------------------------------------------------------------------
// Models
// ---------------------------------------------------------------------------

/// `s` is a commit in full.
pub open spec fn is_full_sha(s: Seq<char>) -> bool {
    s.len() == 40 && forall|i: int| 0 <= i < s.len() ==> is_hex_digit(#[trigger] s[i])
}

/// The first word of the first line.
pub open spec fn listed_sha(out: Seq<char>) -> Seq<char> {
    if bare_lines(out).len() == 0 {
        seq![]
    } else {
        first_word(bare_lines(out)[0])
    }
}

/// `s` without the line feeds at its end.
pub open spec fn without_line_feeds(s: Seq<char>) -> Seq<char>
    decreases s.len(),
{
    if ends_in(s, '\n') {
        without_line_feeds(s.drop_last())
    } else {
        s
    }
}

/// The tools among the first `n` that were not found, in order.
pub open spec fn missing_of(tools: Seq<Seq<char>>, found: Seq<bool>, n: int) -> Seq<Seq<char>>
    decreases n,
{
    if n <= 0 {
        seq![]
    } else if found[n - 1] {
        missing_of(tools, found, n - 1)
    } else {
        missing_of(tools, found, n - 1).push(tools[n - 1])
    }
}

// ---------------------------------------------------------------------------
// Functions
// ---------------------------------------------------------------------------

/// The command that tells which commit a checkout is at.
pub fn head_command(dir: &str) -> (r: Command)
    ensures
        r@ == command_in(dir@, seq!["git"@, "rev-parse"@, "HEAD"@]),
{
    let words = vec!["git", "rev-parse", "HEAD"];
    assert(slices(words@) =~= seq!["git"@, "rev-parse"@, "HEAD"@]);
    command(dir, words)
}

/// The command that tells the subject of that commit.
pub fn subject_command(dir: &str) -> (r: Command)
    ensures
        r@ == command_in(dir@, seq!["git"@, "log"@, "-1"@, "--format=%s"@]),
{
    let words = vec!["git", "log", "-1", "--format=%s"];
    assert(slices(words@) =~= seq!["git"@, "log"@, "-1"@, "--format=%s"@]);
    command(dir, words)
}

/// The command that asks a remote for the commit of a reference.
pub fn remote_query(cwd: &str, repo: &str, reference: &str) -> (r: Command)
    ensures
        r@ == command_in(cwd@, seq!["git"@, "ls-remote"@, repo@, reference@]),
{
    let words = vec!["git", "ls-remote", repo, reference];
    assert(slices(words@) =~= seq!["git"@, "ls-remote"@, repo@, reference@]);
    command(cwd, words)
}

/// The command that applies a patch, which it reads from its input.
pub fn patch_command(cwd: &str, extra: &Vec<String>) -> (r: Command)
    ensures
        r@ == command_in(cwd@, seq!["patch"@, "-p1"@] + texts(extra@)),
{
    let words = vec!["patch", "-p1"];
    assert(slices(words@) =~= seq!["patch"@, "-p1"@]);
    let mut c = command(cwd, words);
    let ghost first = seq!["patch"@, "-p1"@];
    let mut i: usize = 0;
    assert(texts(c.words@) =~= first + texts(extra@).take(0));
    while i < extra.len()
        invariant
            i <= extra@.len(),
            c@.cwd == cwd@,
            c@.env == Seq::<(Seq<char>, Seq<char>)>::empty(),
            texts(c.words@) == first + texts(extra@).take(i as int),
        decreases extra@.len() - i,
    {
        let ghost before = texts(c.words@);
        c.words.push(extra[i].as_str().to_owned());
        assert(texts(c.words@) =~= before.push(extra@[i as int]@));
        i += 1;
        assert(texts(c.words@) =~= first + texts(extra@).take(i as int));
    }
    assert(texts(extra@).take(extra@.len() as int) =~= texts(extra@));
    c
}

/// The command that tells by its end whether a patch would apply.
pub fn probe_command(cwd: &str) -> (r: Command)
    ensures
        r@ == command_in(cwd@, seq!["patch"@, "-p1"@, "--dry-run"@, "--silent"@]),
{
    let words = vec!["patch", "-p1", "--dry-run", "--silent"];
    assert(slices(words@) =~= seq!["patch"@, "-p1"@, "--dry-run"@, "--silent"@]);
    command(cwd, words)
}

/// The program of a command, nothing where there is none.
pub open spec fn program_of(words: Seq<Seq<char>>) -> Seq<char> {
    if words.len() > 0 {
        words[0]
    } else {
        seq![]
    }
}

/// What a command comes to whose program cannot be started.
pub fn spawn_failure(command: &Command) -> (r: Failure)
    ensures
        r@ == cannot_spawn_text(program_of(command@.words)),
{
    let program = if command.words.len() > 0 {
        assert(command@.words[0] == command.words@[0]@);
        command.words[0].as_str().to_owned()
    } else {
        let none = String::new();
        assert(none@ =~= program_of(command@.words));
        none
    };
    Failure::CannotSpawn { program }
}

/// Fails where a command did not succeed. `status` is how it ended.
pub fn run_result(command: &Command, success: bool, status: &str) -> (r: Result<(), Failure>)
    ensures
        r is Ok <==> success,
        r matches Err(e) ==> e@ == command_failed_text(status@, shown_command(command@.words)),
{
    if success {
        Ok(())
    } else {
        Err(Failure::CommandFailed { status: status.to_owned(), shown: command.shown() })
    }
}

/// The arguments of a command.
pub open spec fn arguments_of(words: Seq<Seq<char>>) -> Seq<Seq<char>> {
    if words.len() > 0 {
        words.skip(1)
    } else {
        words
    }
}

/// What the message about a command shows whose output is wanted: the program, a blank
/// and the arguments.
pub open spec fn captured_command(words: Seq<Seq<char>>) -> Seq<char> {
    program_of(words) + " "@ + joined_with(arguments_of(words), " "@)
}

/// The program of a command, a blank and the arguments.
fn show_captured(command: &Command) -> (r: String)
    ensures
        r@ == captured_command(command@.words),
{
    let ghost args = arguments_of(command@.words);
    let mut rest: Vec<String> = Vec::new();
    let mut i: usize = 1;
    assert(texts(rest@) =~= args.take(0));
    while i < command.words.len()
        invariant
            1 <= i,
            args == arguments_of(texts(command.words@)),
            i == 1 || i <= command.words@.len(),
            texts(rest@) == args.take(i - 1),
        decreases command.words@.len() - i,
    {
        let ghost before = texts(rest@);
        rest.push(command.words[i].as_str().to_owned());
        assert(texts(rest@) =~= before.push(args[i - 1]));
        i += 1;
        assert(texts(rest@) =~= args.take(i - 1));
    }
    assert(args.len() == i - 1);
    assert(args.take(i - 1) =~= args);
    let joined = join_with(&rest, " ");
    if command.words.len() > 0 {
        assert(command@.words[0] == command.words@[0]@);
        cat3(&command.words[0], " ", &joined)
    } else {
        let none = cat2(" ", &joined);
        assert(none@ =~= captured_command(command@.words));
        none
    }
}

/// Cuts the line feeds off the end of a text.
pub fn cut_line_feeds(s: &str) -> (r: String)
    ensures
        r@ == without_line_feeds(s@),
{
    let v = chars_of(s);
    let mut n: usize = v.len();
    assert(v@.take(n as int) =~= v@);
    while n > 0 && v[n - 1] == '\n'
        invariant
            n <= v@.len(),
            without_line_feeds(v@) == without_line_feeds(v@.take(n as int)),
        decreases n,
    {
        assert(v@.take(n as int).drop_last() =~= v@.take(n - 1));
        n -= 1;
    }
    let kept = range_of(&v, 0, n);
    assert(kept@ =~= v@.take(n as int));
    string_of(&kept)
}

/// What a command printed, without the line feeds at its end. Fails where it did not
/// succeed.
pub fn capture(command: &Command, success: bool, status: &str, stdout: &str, stderr: &str) -> (r:
    Result<String, Failure>)
    ensures
        r is Ok <==> success,
        r matches Ok(out) ==> out@ == without_line_feeds(stdout@),
        r matches Err(e) ==> e@ == capture_failed_text(
            status@,
            captured_command(command@.words),
            stderr@,
        ),
{
    if success {
        Ok(cut_line_feeds(stdout))
    } else {
        Err(
            Failure::CaptureFailed {
                status: status.to_owned(),
                shown: show_captured(command),
                stderr: stderr.to_owned(),
            },
        )
    }
}

/// Fails where a patch is not there.
pub fn patch_present(patch: &str, exists: bool) -> (r: Result<(), Failure>)
    ensures
        r is Ok <==> exists,
        r matches Err(e) ==> e@ == patch_missing_text(patch@),
{
    if exists {
        Ok(())
    } else {
        Err(Failure::PatchMissing { path: patch.to_owned() })
    }
}

/// Fails where a patch did not apply. `status` is how the program ended.
pub fn patch_result(patch: &str, success: bool, status: &str) -> (r: Result<(), Failure>)
    ensures
        r is Ok <==> success,
        r matches Err(e) ==> e@ == patch_failed_text(patch@, status@),
{
    if success {
        Ok(())
    } else {
        Err(Failure::PatchFailed { path: patch.to_owned(), status: status.to_owned() })
    }
}

/// Tells whether a text is a commit in full.
pub fn full_sha(s: &str) -> (r: bool)
    ensures
        r == is_full_sha(s@),
{
    let v = chars_of(s);
    if v.len() != 40 {
        return false;
    }
    let mut i: usize = 0;
    while i < v.len()
        invariant
            i <= v@.len(),
            v@.len() == 40,
            v@ == s@,
            forall|j: int| 0 <= j < i ==> is_hex_digit(#[trigger] v@[j]),
        decreases v@.len() - i,
    {
        let c: char = v[i];
        let hex = ('0' <= c && c <= '9') || ('a' <= c && c <= 'f') || ('A' <= c && c <= 'F');
        if !hex {
            assert(!is_hex_digit(v@[i as int]));
            return false;
        }
        i += 1;
    }
    true
}

/// Reads the commit that a remote lists for a reference.
pub fn ls_remote(repo: &str, reference: &str, out: &str) -> (r: Result<String, Failure>)
    ensures
        r is Ok <==> is_full_sha(listed_sha(out@)),
        r matches Ok(sha) ==> sha@ == listed_sha(out@),
        r matches Err(e) ==> e@ == bad_sha_text(repo@, reference@, listed_sha(out@)),
{
    let rows = vec_bare_lines(&chars_of(out));
    let sha = if rows.len() == 0 {
        let none: Vec<char> = Vec::new();
        assert(none@ =~= listed_sha(out@));
        string_of(&none)
    } else {
        assert(char_rows(rows@)[0] == rows@[0]@);
        string_of(&vec_first_word(&rows[0]))
    };
    if full_sha(&sha) {
        Ok(sha)
    } else {
        Err(Failure::BadSha { repo: repo.to_owned(), reference: reference.to_owned(), sha })
    }
}

/// Fails where a tool was not found, and names all that were not.
pub fn require_tools(tools: &Vec<&str>, found: &Vec<bool>) -> (r: Result<(), Failure>)
    requires
        tools@.len() == found@.len(),
    ensures
        r is Ok <==> (forall|i: int| 0 <= i < found@.len() ==> #[trigger] found@[i]),
        r matches Err(e) ==> e@ == missing_tools_text(
            joined_with(missing_of(slices(tools@), found@, tools@.len() as int), ", "@),
        ),
{
    let mut missing: Vec<String> = Vec::new();
    let mut i: usize = 0;
    assert(texts(missing@) =~= Seq::<Seq<char>>::empty());
    while i < tools.len()
        invariant
            i <= tools@.len(),
            tools@.len() == found@.len(),
            texts(missing@) == missing_of(slices(tools@), found@, i as int),
            missing@.len() == 0 <==> (forall|j: int| 0 <= j < i ==> #[trigger] found@[j]),
        decreases tools@.len() - i,
    {
        if !found[i] {
            let ghost before = texts(missing@);
            missing.push(tools[i].to_owned());
            assert(texts(missing@) =~= before.push(tools@[i as int]@));
        }
        i += 1;
    }
    if missing.len() == 0 {
        Ok(())
    } else {
        Err(Failure::MissingTools { names: join_with(&missing, ", ") })
    }
}

} // verus!
