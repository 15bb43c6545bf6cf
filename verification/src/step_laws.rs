//! What single steps, notes and shown commands promise.
use crate::ctx::{common_dir_of, kernel_dir_of, log_line};
use crate::device::{device_steps, min_kdp_finish_steps};
use crate::family::{family_list, id_of, kernel_numbers, Family};
use crate::features::{skipped_patch_note, unicode_steps};
use crate::kernel::{ccache_fetch_model, ccache_install_models, reject_steps};
use crate::naming::{reads_makefile, resolved_sublevel};
use crate::paths::{joined_path, parent_of};
use crate::plan::{shown_command, StepModel};
use crate::process::captured_command;
use crate::root::{pinned_or_tip, root_note, SourceModel};
use crate::selinux::selinux_note;
use crate::sources::{
    btf_tool_steps, deprecated_manifest, init_steps, launcher_steps, repo_tool_of,
};
use crate::summary::{families_json_text, quoted, version_command_words};
use crate::text::{
    all_digits, ascii_lowered, begins, decimal, is_digit, joined_with, occurs, occurs_at,
};
use crate::text_laws::{law_replace_needs_the_pattern, law_replacement_is_there};
use vstd::prelude::*;

verus! {

/// What stands between two texts is there.
proof fn lemma_is_between(a: Seq<char>, x: Seq<char>, b: Seq<char>)
    ensures
        occurs(a + x + b, x),
{
    assert((a + x + b).subrange(a.len() as int, (a.len() + x.len()) as int) =~= x);
    assert(occurs_at(a + x + b, x, a.len() as int));
}

/// Rejected hunks are collected at the place that they have below the kernel directory,
/// and the file that they are for beside them, without the ending.
pub proof fn law_rejects_keep_their_place(ws: Seq<char>, original: Seq<char>, there: bool)
    ensures
        ({
            let kernel = kernel_dir_of(ws);
            let p = kernel + "/"@ + original + ".rej"@;
            let to = joined_path(joined_path(ws, "patch-rejects"@), original + ".rej"@);
            let steps = reject_steps(ws, p, there);
            &&& steps.len() == (if there {
                3int
            } else {
                2int
            })
            &&& steps[0] == (StepModel::MakeDir { path: parent_of(to) })
            &&& steps[1] == (StepModel::CopyFile { from: p, to })
            &&& there ==> steps[2] == (StepModel::CopyFile {
                from: kernel + "/"@ + original,
                to: to.take(to.len() - 4),
            })
        }),
{
    reveal_strlit(".rej");
    reveal_strlit("/");
    let kernel = kernel_dir_of(ws);
    let p = kernel + "/"@ + original + ".rej"@;
    let front = kernel + "/"@;
    assert(p.subrange(0, front.len() as int) =~= front);
    assert(occurs_at(p, front, 0));
    assert(p.skip(front.len() as int) =~= original + ".rej"@);
    assert(p.take(p.len() - 4) =~= kernel + "/"@ + original);
}

/// A branch that moved is looked up among the deprecated ones wherever the manifest names
/// it. A manifest that does not name it stays.
pub proof fn law_moved_branches_are_looked_up(content: Seq<char>, branch: Seq<char>)
    ensures
        occurs(content, "\""@ + branch + "\""@) ==> occurs(
            deprecated_manifest(content, branch),
            "\"deprecated/"@ + branch + "\""@,
        ),
        !occurs(content, "\""@ + branch + "\""@) ==> deprecated_manifest(content, branch)
            == content,
{
    reveal_strlit("\"");
    let from = "\""@ + branch + "\""@;
    let to = "\"deprecated/"@ + branch + "\""@;
    if occurs(content, from) {
        law_replacement_is_there(content, from, to);
    } else {
        law_replace_needs_the_pattern(content, from, to);
    }
}

/// The unicode fix is one patch of the common kernel tree, that of the series, which is
/// skipped where it was applied; and it is noted by its name.
pub proof fn law_unicode_fix_is_one_patch(ws: Seq<char>, f: Family)
    ensures
        ({
            let name = if kernel_numbers(f).0 >= 6 {
                "common/unicode_bypass_fix_6.1+.patch"@
            } else {
                "common/unicode_bypass_fix_6.1-.patch"@
            };
            let steps = unicode_steps(ws, f);
            &&& steps.len() == 2
            &&& steps[0] matches StepModel::Patch { cwd, patch, extra } && cwd == common_dir_of(ws)
                && patch == joined_path(joined_path(ws, "kernel_patches"@), name) && extra
                =~= seq!["--forward"@]
            &&& steps[1] matches StepModel::Note { text } && occurs(text, name)
        }),
{
    let name = if kernel_numbers(f).0 >= 6 {
        "common/unicode_bypass_fix_6.1+.patch"@
    } else {
        "common/unicode_bypass_fix_6.1-.patch"@
    };
    lemma_is_between("unicode fix: applied ("@, name, ")"@);
}

/// A commit that is pinned is taken as it is; else the tip of the branch is asked for, at
/// the repository.
pub proof fn law_pins_come_first(sha: Seq<char>, repo: Seq<char>, branch: Seq<char>)
    ensures
        pinned_or_tip(Some(sha), repo, branch) == (SourceModel::Given { sha }),
        pinned_or_tip(None, repo, branch) == (SourceModel::Remote {
            repo,
            reference: "refs/heads/"@ + branch,
        }),
{
}

/// Notes name what they are about: the root implementation its repository, commit and
/// version, a patch that was skipped its path, the fix of the hooks its files by number.
pub proof fn law_notes_name_their_subject(
    repo: Seq<char>,
    sha: Seq<char>,
    version: Seq<char>,
    patch: Seq<char>,
    n: nat,
)
    ensures
        begins(root_note(repo, sha, version), "root="@ + repo),
        occurs(root_note(repo, sha, version), "commit="@ + sha),
        occurs(root_note(repo, sha, version), "version="@ + version),
        occurs(skipped_patch_note(patch), patch),
        begins(skipped_patch_note(patch), "warning: "@),
        occurs(selinux_note(n), decimal(n)),
{
    reveal_strlit("root=");
    reveal_strlit(" commit=");
    reveal_strlit(" version=");
    reveal_strlit("commit=");
    reveal_strlit("version=");
    reveal_strlit("warning: ");
    let note = root_note(repo, sha, version);
    let (a, b, c) = ("root="@ + repo, "commit="@ + sha, "version="@ + version);
    assert(note.subrange(0, a.len() as int) =~= a);
    assert(note =~= (a + seq![' ']) + b + (seq![' '] + c));
    lemma_is_between(a + seq![' '], b, seq![' '] + c);
    let e = Seq::<char>::empty();
    assert(note =~= (a + seq![' '] + b + seq![' ']) + c + e);
    lemma_is_between(a + seq![' '] + b + seq![' '], c, e);
    lemma_is_between("warning: "@, patch, " not present in kernel_patches; skipping"@);
    let w = skipped_patch_note(patch);
    assert(w.subrange(0, 9) =~= "warning: "@);
    lemma_is_between("selinux_hide fix: patched "@, decimal(n), " file(s)"@);
}

/// A command with arguments is shown alike in the log and in the message about its output.
pub proof fn law_commands_are_shown_alike(words: Seq<Seq<char>>)
    requires
        words.len() >= 2,
    ensures
        captured_command(words) == shown_command(words),
    decreases words.len(),
{
    let sep = " "@;
    let rest = words.skip(1);
    if words.len() == 2 {
        assert(joined_with(words.drop_last(), sep) == words[0]);
        assert(captured_command(words) =~= shown_command(words));
    } else {
        let d = words.drop_last();
        law_commands_are_shown_alike(d);
        assert(rest.drop_last() =~= d.skip(1));
        assert(rest.last() == words.last());
        assert(captured_command(words) =~= captured_command(d) + sep + words.last());
    }
}

/// The sublevel is read from the tree for the tip of a series and where it is left open,
/// in either case of the letters. A number is taken as it is at every other level.
pub proof fn law_open_sublevels_are_read_from_the_tree(
    level: Seq<char>,
    sublevel: Seq<char>,
    makefile: Option<Seq<char>>,
    path: Seq<char>,
)
    ensures
        reads_makefile("lts"@, sublevel),
        reads_makefile("LTS"@, sublevel),
        reads_makefile(level, "X"@),
        reads_makefile(level, "x"@),
        level.len() != 3 && sublevel.len() > 0 && all_digits(sublevel) ==> resolved_sublevel(
            level,
            sublevel,
            makefile,
            path,
        ) == Ok::<Seq<char>, Seq<char>>(sublevel),
{
    reveal_strlit("lts");
    reveal_strlit("LTS");
    reveal_strlit("X");
    reveal_strlit("x");
    assert(ascii_lowered("LTS"@) =~= ascii_lowered("lts"@));
    assert(ascii_lowered("x"@) =~= ascii_lowered("X"@));
    if level.len() != 3 && sublevel.len() > 0 && all_digits(sublevel) {
        assert(ascii_lowered(level).len() == level.len());
        assert(ascii_lowered("lts"@).len() == 3);
        assert(is_digit(sublevel[0]));
        assert(ascii_lowered(sublevel)[0] == sublevel[0]);
        assert(ascii_lowered("X"@)[0] == 'x');
    }
}

/// A piece of a joined text is there.
proof fn lemma_piece_is_there(pieces: Seq<Seq<char>>, sep: Seq<char>, k: int)
    requires
        0 <= k < pieces.len(),
    ensures
        occurs(joined_with(pieces, sep), pieces[k]),
    decreases pieces.len(),
{
    let e = Seq::<char>::empty();
    let all = joined_with(pieces, sep);
    if pieces.len() == 1 {
        lemma_is_between(e, pieces[0], e);
        assert(e + pieces[0] + e =~= pieces[0]);
    } else {
        let d = pieces.drop_last();
        let front = joined_with(d, sep);
        if k == pieces.len() - 1 {
            lemma_is_between(front + sep, pieces[k], e);
            assert(front + sep + pieces[k] + e =~= all);
        } else {
            lemma_piece_is_there(d, sep, k);
            let i = choose|i: int| occurs_at(front, d[k], i);
            assert(all.subrange(i, i + d[k].len()) =~= front.subrange(i, i + d[k].len()));
            assert(occurs_at(all, pieces[k], i));
        }
    }
}

/// The list of families has every family in it, by its name in quotes, between brackets.
pub proof fn law_every_family_is_listed(f: Family)
    ensures
        occurs(families_json_text(), "\""@ + id_of(f) + "\""@),
        families_json_text().len() > 1,
        families_json_text()[0] == '[',
        families_json_text().last() == ']',
{
    reveal_strlit("[");
    reveal_strlit("]");
    let fs = family_list();
    let k = match f {
        Family::Android12_5_10 => 0int,
        Family::Android13_5_10 => 1,
        Family::Android13_5_15 => 2,
        Family::Android14_5_15 => 3,
        Family::Android14_6_1 => 4,
        Family::Android15_6_6 => 5,
        Family::Android16_6_12 => 6,
    };
    assert(fs[k] == f);
    let pieces = fs.map_values(|f: Family| id_of(f)).map_values(|t: Seq<char>| quoted(t));
    assert(pieces[k] == quoted(id_of(f)));
    lemma_piece_is_there(pieces, ","@, k);
    let inner = joined_with(pieces, ","@);
    let i = choose|i: int| occurs_at(inner, pieces[k], i);
    let all = families_json_text();
    assert(all.subrange(i + 1, i + 1 + pieces[k].len()) =~= inner.subrange(
        i,
        i + pieces[k].len(),
    ));
    assert(occurs_at(all, pieces[k], i + 1));
}

/// The words have `flag` with `value` right behind it.
pub open spec fn has_flag(words: Seq<Seq<char>>, flag: Seq<char>, value: Seq<char>) -> bool {
    exists|i: int| 0 <= i && i + 1 < words.len() && #[trigger] words[i] == flag && words[i + 1] == value
}

/// The compiler cache is fetched into the workspace, from where it is installed at the one
/// place from which the builds run it. A download that fails is one that fails loudly, and
/// it is tried again.
pub proof fn law_compiler_cache_is_installed_from_its_download(ws: Seq<char>)
    ensures
        ({
            let fetch = ccache_fetch_model(ws);
            let install = ccache_install_models(ws);
            let place = joined_path(ws, "ccache"@);
            &&& fetch.cwd == ws
            &&& fetch.words[0] == "curl"@
            &&& fetch.words.contains("-LfsS"@)
            &&& has_flag(fetch.words, "-o"@, place)
            &&& has_flag(fetch.words, "--retry"@, "5"@)
            &&& has_flag(fetch.words, "--retry-delay"@, "5"@)
            &&& fetch.words.contains("--retry-all-errors"@)
            &&& has_flag(fetch.words, "--connect-timeout"@, "30"@)
            &&& has_flag(fetch.words, "-H"@, "User-Agent: Mozilla/5.0"@)
            &&& fetch.words.contains(
                "https://github.com/WildKernels/kernel_patches/raw/refs/heads/main/ccache/ccache-x86-64"@,
            )
            &&& install.len() == 2
            &&& install[0].words =~= seq!["sudo"@, "cp"@, "-f"@, place, "/usr/bin/ccache"@]
            &&& install[1].words =~= seq!["sudo"@, "chmod"@, "+x"@, "/usr/bin/ccache"@]
        }),
{
    let w = ccache_fetch_model(ws).words;
    assert(w[1] == "-LfsS"@);
    assert(w[2] == "--retry"@ && w[3] == "5"@);
    assert(w[4] == "--retry-delay"@ && w[5] == "5"@);
    assert(w[6] == "--retry-all-errors"@);
    assert(w[7] == "--connect-timeout"@ && w[8] == "30"@);
    assert(w[9] == "-H"@ && w[10] == "User-Agent: Mozilla/5.0"@);
    assert(w[11]
        == "https://github.com/WildKernels/kernel_patches/raw/refs/heads/main/ccache/ccache-x86-64"@);
    assert(w[12] == "-o"@ && w[13] == joined_path(ws, "ccache"@));
}

/// The tool that fetches the sources is downloaded to the place from which it is run, and
/// made executable there. Its directory is made first.
pub proof fn law_source_tool_is_downloaded(ws: Seq<char>)
    ensures
        ({
            let steps = launcher_steps(ws);
            &&& steps.len() == 4
            &&& steps[0] == (StepModel::MakeDir { path: joined_path(ws, "kernel"@) })
            &&& steps[1] == (StepModel::MakeDir { path: joined_path(ws, "git-repo"@) })
            &&& steps[2] matches StepModel::RunRetried { command, attempts, delay } && {
                &&& attempts == 5
                &&& delay == 5
                &&& command.cwd == ws
                &&& command.words[0] == "curl"@
                &&& command.words.contains("-LfsS"@)
                &&& has_flag(command.words, "--retry"@, "5"@)
                &&& has_flag(command.words, "--retry-delay"@, "5"@)
                &&& command.words.contains("--retry-all-errors"@)
                &&& has_flag(command.words, "-o"@, repo_tool_of(ws))
                &&& command.words.contains(
                    "https://storage.googleapis.com/git-repo-downloads/repo"@,
                )
            }
            &&& steps[3] == (StepModel::MakeExecutable { path: repo_tool_of(ws) })
        }),
{
    match launcher_steps(ws)[2] {
        StepModel::RunRetried { command, attempts, delay } => {
            let w = command.words;
            assert(w[1] == "-LfsS"@);
            assert(w[2] == "--retry"@ && w[3] == "5"@);
            assert(w[4] == "--retry-delay"@ && w[5] == "5"@);
            assert(w[6] == "--retry-all-errors"@);
            assert(w[7] == "-o"@ && w[8] == repo_tool_of(ws));
            assert(w[9] == "https://storage.googleapis.com/git-repo-downloads/repo"@);
        },
        _ => {},
    }
}

/// The tools for type information are those two, and a failure to install them is a
/// warning.
pub proof fn law_type_information_tools_are_installed(ws: Seq<char>)
    ensures
        ({
            let steps = btf_tool_steps(ws, Family::Android12_5_10);
            &&& steps.len() == 1
            &&& steps[0] matches StepModel::TryAll { commands, warning } && {
                &&& commands.len() == 2
                &&& commands[0].words =~= seq!["sudo"@, "apt-get"@, "update"@, "-qq"@]
                &&& commands[1].words[1] == "apt-get"@
                &&& commands[1].words[2] == "install"@
                &&& commands[1].words.contains("-y"@)
                &&& commands[1].words.contains("dwarves"@)
                &&& commands[1].words.contains("libelf-dev"@)
                &&& warning == "warning: could not install BTF tooling automatically"@
            }
        }),
{
    match btf_tool_steps(ws, Family::Android12_5_10)[0] {
        StepModel::TryAll { commands, warning } => {
            let w = commands[1].words;
            assert(w[3] == "-y"@ && w[5] == "dwarves"@ && w[6] == "libelf-dev"@);
        },
        _ => {},
    }
}

/// The sources of one branch are fetched, and of it only what a build needs: one revision
/// of that branch without tags, on four jobs, within a quarter of an hour.
pub proof fn law_one_branch_is_fetched(kernel: Seq<char>, tool: Seq<char>, branch: Seq<char>)
    ensures
        ({
            let steps = init_steps(kernel, tool, branch);
            &&& steps.len() == 3
            &&& steps[0] matches StepModel::Run { command } && {
                &&& command.cwd == kernel
                &&& command.words[0] == tool && command.words[1] == "init"@
                &&& has_flag(
                    command.words,
                    "-u"@,
                    "https://android.googlesource.com/kernel/manifest"@,
                )
                &&& has_flag(command.words, "-b"@, branch)
                &&& command.words.contains("--depth=1"@)
            }
            &&& steps[1] matches StepModel::RewriteManifest { query, manifest, branch: same } && {
                &&& query.words =~= seq![
                    "git"@,
                    "ls-remote"@,
                    "https://android.googlesource.com/kernel/common"@,
                    branch,
                ]
                &&& manifest == joined_path(kernel, ".repo/manifests/default.xml"@)
                &&& same == branch
            }
            &&& steps[2] matches StepModel::Run { command } && {
                &&& command.cwd == kernel
                &&& command.words[0] == "timeout"@ && command.words[1] == "15m"@
                &&& command.words[2] == tool && command.words[3] == "sync"@
                &&& command.words.contains("--current-branch"@)
                &&& command.words.contains("--no-clone-bundle"@)
                &&& command.words.contains("--no-tags"@)
                &&& command.words.contains("--jobs-checkout=4"@)
                &&& command.words.contains("-j4"@)
            }
        }),
{
    let steps = init_steps(kernel, tool, branch);
    match steps[0] {
        StepModel::Run { command } => {
            let w = command.words;
            assert(w[2] == "-u"@ && w[3]
                == "https://android.googlesource.com/kernel/manifest"@);
            assert(w[4] == "-b"@ && w[5] == branch);
            assert(w[6] == "--depth=1"@);
        },
        _ => {},
    }
    match steps[2] {
        StepModel::Run { command } => {
            let w = command.words;
            assert(w[5] == "--current-branch"@ && w[6] == "--no-clone-bundle"@);
            assert(w[7] == "--no-tags"@ && w[8] == "--jobs-checkout=4"@ && w[9] == "-j4"@);
        },
        _ => {},
    }
}

/// The version of an image is what the first of its strings says that begins as the banner
/// of a kernel does; an image without one is no failure.
pub proof fn law_image_version_is_its_banner(image: Seq<char>)
    ensures
        ({
            let words = version_command_words(image);
            &&& words.len() == 3
            &&& words[0] == "sh"@ && words[1] == "-c"@
            &&& begins(words[2], "strings "@ + image + " | grep -m1 '^Linux version '"@)
            &&& occurs(words[2], "sed 's/Linux version //'"@)
            &&& words[2].subrange(words[2].len() - 8, words[2].len() as int) == " || true"@
        }),
{
    reveal_strlit("strings ");
    reveal_strlit(" | grep -m1 '^Linux version '");
    reveal_strlit("sed 's/Linux version //'");
    reveal_strlit(" || true");
    reveal_strlit(" | grep -m1 '^Linux version ' | sed 's/Linux version //' || true");
    let w = version_command_words(image)[2];
    let a = "strings "@ + image;
    let front = a + " | grep -m1 '^Linux version '"@;
    assert(w.subrange(0, front.len() as int) =~= front);
    let n = "sed 's/Linux version //'"@;
    let at = front.len() as int + 3;
    assert(w.subrange(at, at + n.len()) =~= n);
    assert(occurs_at(w, n, at));
    assert(w.subrange(w.len() - 8, w.len() as int) =~= " || true"@);
}

/// What was done for devices is the last thing noted, behind all of its steps; and a line
/// of the log names the build and ends in the message.
pub proof fn law_device_changes_are_noted(
    ws: Seq<char>,
    f: Family,
    name: Seq<char>,
    message: Seq<char>,
)
    ensures
        min_kdp_finish_steps(ws).last() == (StepModel::Note {
            text: "samsung min_kdp integration: applied"@,
        }),
        device_steps(f) matches Some(steps) ==> steps.last() == (StepModel::Note {
            text: "xiaomi symbol list: device_find_any_child"@,
        }),
        occurs(log_line(name, message), name),
        log_line(name, message).skip(log_line(name, message).len() - message.len()) == message,
        begins(log_line(name, message), "[trustgki "@),
{
    let line = log_line(name, message);
    let front = "[trustgki "@;
    lemma_is_between(front, name, "] "@ + message);
    assert(front + name + ("] "@ + message) =~= line);
    assert(line.subrange(0, front.len() as int) =~= front);
    assert(line.skip(line.len() - message.len()) =~= message);
}

} // verus!
