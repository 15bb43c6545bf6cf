//! What the build and what it leaves promise.
use crate::ctx::Ctx;
use crate::kernel::{
    check_disabled, file_name_part, is_reject_path, legacy_checks_dropped, legacy_env_model,
};
use crate::paths::joined_path;
use crate::sed::{line_then, terminated};
use crate::sed_laws::{lemma_has_in_joined, lemma_stands_in_a_line};
use crate::text::{begins, ends, lines_of, occurs, occurs_at, replaced, signed_decimal};
use crate::text_laws::law_replace_needs_the_pattern;
use vstd::prelude::*;

verus! {

/// The variable is set to the value.
pub open spec fn says(env: Seq<(Seq<char>, Seq<char>)>, name: Seq<char>, value: Seq<char>) -> bool {
    env.contains((name, value))
}

proof fn lemma_says(env: Seq<(Seq<char>, Seq<char>)>, i: int)
    requires
        0 <= i < env.len(),
    ensures
        says(env, env[i].0, env[i].1),
{
    assert(env[i] == (env[i].0, env[i].1));
}

/// Every legacy build is stamped with the time of the build, keeps its output in the
/// workspace, links thinly, and builds neither certification tools nor modules.
pub proof fn law_legacy_builds_are_stamped(ctx: Ctx, use_ccache: bool)
    ensures
        ({
            let env = legacy_env_model(ctx, use_ccache);
            &&& says(env, "SOURCE_DATE_EPOCH"@, signed_decimal(ctx.source_date_epoch as int))
            &&& says(env, "KBUILD_BUILD_TIMESTAMP"@, ctx.kbuild_timestamp@)
            &&& says(env, "GIT_AUTHOR_DATE"@, ctx.git_date@)
            &&& says(env, "GIT_COMMITTER_DATE"@, ctx.git_date@)
            &&& says(env, "BUILD_GKI_ARTIFACTS"@, Seq::<char>::empty())
            &&& says(env, "BUILD_GKI_CERTIFICATION_TOOLS"@, "0"@)
            &&& says(env, "BUILD_SYSTEM_DLKM"@, "0"@)
            &&& says(env, "SKIP_VENDOR_BOOT"@, "1"@)
            &&& says(env, "SKIP_EXT_MODULES"@, "1"@)
            &&& says(env, "SKIP_CP_KERNEL_HDR"@, "1"@)
            &&& says(env, "OUT_DIR"@, joined_path(ctx.workspace(), "out"@))
            &&& says(env, "LTO"@, "thin"@)
            &&& says(env, "BUILD_CONFIG"@, "common/build.config.gki.aarch64"@)
            &&& env.len() == (if use_ccache {
                32int
            } else {
                13int
            })
        }),
{
    let env = legacy_env_model(ctx, use_ccache);
    lemma_says(env, 0);
    lemma_says(env, 1);
    lemma_says(env, 2);
    lemma_says(env, 3);
    lemma_says(env, 4);
    lemma_says(env, 5);
    lemma_says(env, 6);
    lemma_says(env, 7);
    lemma_says(env, 8);
    lemma_says(env, 9);
    lemma_says(env, 10);
    lemma_says(env, 11);
    lemma_says(env, 12);
}

/// A cached build keeps the cache in the workspace and makes it independent of where the
/// workspace is; the cache is bounded, compressed and shared, goes by the contents of the
/// compiler, and all four compilers go through it.
pub proof fn law_cached_builds_share_the_cache(ctx: Ctx)
    ensures
        ({
            let env = legacy_env_model(ctx, true);
            &&& says(env, "CCACHE_DIR"@, joined_path(ctx.workspace(), ".ccache"@))
            &&& says(env, "CCACHE_BASEDIR"@, ctx.workspace())
            &&& says(env, "CCACHE_MAXSIZE"@, "12G"@)
            &&& says(env, "CCACHE_COMPILERCHECK"@, "content"@)
            &&& says(env, "CCACHE_NOHASHDIR"@, "true"@)
            &&& says(env, "CCACHE_IGNOREOPTIONS"@, "--sysroot*"@)
            &&& says(env, "CCACHE_COMPRESS"@, "true"@)
            &&& says(env, "CCACHE_COMPRESSLEVEL"@, "3"@)
            &&& says(env, "CCACHE_DIRECT"@, "true"@)
            &&& says(env, "CCACHE_FILE_CLONE"@, "true"@)
            &&& says(env, "CCACHE_INODE_CACHE"@, "true"@)
            &&& says(env, "CCACHE_IS_KERNEL_COMPILING"@, "true"@)
            &&& says(env, "CCACHE_UMASK"@, "002"@)
            &&& says(env, "CCACHE_DEPEND"@, "true"@)
            &&& says(
                env,
                "CCACHE_SLOPPINESS"@,
                "file_macro,time_macros,include_file_mtime,include_file_ctime,pch_defines,system_headers,locale"@,
            )
            &&& says(env, "CC"@, "/usr/bin/ccache clang"@)
            &&& says(env, "CXX"@, "/usr/bin/ccache clang++"@)
            &&& says(env, "HOSTCC"@, "/usr/bin/ccache clang"@)
            &&& says(env, "HOSTCXX"@, "/usr/bin/ccache clang++"@)
        }),
{
    let env = legacy_env_model(ctx, true);
    lemma_says(env, 13);
    lemma_says(env, 15);
    lemma_says(env, 14);
    lemma_says(env, 16);
    lemma_says(env, 17);
    lemma_says(env, 18);
    lemma_says(env, 19);
    lemma_says(env, 20);
    lemma_says(env, 21);
    lemma_says(env, 22);
    lemma_says(env, 23);
    lemma_says(env, 24);
    lemma_says(env, 25);
    lemma_says(env, 26);
    lemma_says(env, 27);
    lemma_says(env, 28);
    lemma_says(env, 29);
    lemma_says(env, 30);
    lemma_says(env, 31);
}

/// A build description that describes the kernel has the check of the configuration
/// disabled afterwards, and disabling it once more changes nothing.
pub proof fn law_check_is_disabled_once(s: Seq<char>)
    ensures
        occurs(s, "name = \"kernel_aarch64\","@) ==> occurs(
            check_disabled(s),
            "check_defconfig = \"disabled\""@,
        ) && check_disabled(check_disabled(s)) == check_disabled(s),
        occurs(s, "check_defconfig = \"disabled\""@) ==> check_disabled(s) == s,
{
    let needle = "name = \"kernel_aarch64\","@;
    let line = "    check_defconfig = \"disabled\","@;
    let n = "check_defconfig = \"disabled\""@;
    if occurs(s, needle) && !occurs(s, n) {
        reveal_strlit("name = \"kernel_aarch64\",");
        reveal_strlit("    check_defconfig = \"disabled\",");
        reveal_strlit("check_defconfig = \"disabled\"");
        let k = lemma_stands_in_a_line(s, needle);
        let pieces = lines_of(s).map_values(|l: Seq<char>| line_then(l, needle, line));
        let piece = pieces[k];
        let at = terminated(lines_of(s)[k]).len() + 4;
        assert(piece == terminated(lines_of(s)[k]) + terminated(line));
        assert(piece.subrange(at as int, (at + n.len()) as int) =~= n);
        assert(occurs_at(piece, n, at as int));
        lemma_has_in_joined(pieces, k, n);
    }
}

/// What stands behind the last slash of a path is the name of its file.
proof fn lemma_name_of_file(dir: Seq<char>, name: Seq<char>)
    requires
        forall|i: int| 0 <= i < name.len() ==> name[i] != '/',
    ensures
        file_name_part(dir.push('/') + name) == name,
        file_name_part(name) == name,
    decreases name.len(),
{
    let p = dir.push('/') + name;
    if name.len() == 0 {
        assert(p.last() == '/');
    } else {
        lemma_name_of_file(dir, name.drop_last());
        assert(p.drop_last() =~= dir.push('/') + name.drop_last());
        assert(name.drop_last().push(name.last()) =~= name);
        assert(p.last() == name.last());
    }
}

/// A file is one of rejected hunks exactly where its name is another one, of any length
/// but none, with `.rej` behind it; the rejects of one driver are passed over wherever
/// they are.
pub proof fn law_rejects_are_known_by_name(dir: Seq<char>, stem: Seq<char>)
    requires
        forall|i: int| 0 <= i < stem.len() ==> stem[i] != '/',
    ensures
        is_reject_path(dir.push('/') + stem + ".rej"@) <==> stem.len() > 0 && stem
            != "i2c-nomadik.c"@,
        !ends(stem, ".rej"@) ==> !is_reject_path(dir.push('/') + stem),
{
    reveal_strlit(".rej");
    reveal_strlit("i2c-nomadik.c");
    reveal_strlit("i2c-nomadik.c.rej");
    let name = stem + ".rej"@;
    lemma_name_of_file(dir, name);
    lemma_name_of_file(dir, stem);
    assert(dir.push('/') + stem + ".rej"@ =~= dir.push('/') + name);
    assert(name.skip(name.len() - 4) =~= ".rej"@);
    assert("i2c-nomadik.c.rej"@ =~= "i2c-nomadik.c"@ + ".rej"@);
    assert(name.take(stem.len() as int) =~= stem);
    assert("i2c-nomadik.c.rej"@.take(13) =~= "i2c-nomadik.c"@);
}

/// Cutting a text out of another makes it shorter.
proof fn lemma_cut_is_shorter(s: Seq<char>, n: Seq<char>)
    requires
        n.len() > 0,
    ensures
        replaced(s, n, ""@).len() <= s.len(),
        occurs(s, n) ==> replaced(s, n, ""@).len() < s.len(),
    decreases s.len(),
{
    reveal_strlit("");
    if s.len() >= n.len() {
        if begins(s, n) {
            lemma_cut_is_shorter(s.skip(n.len() as int), n);
        } else {
            let t = s.skip(1);
            lemma_cut_is_shorter(t, n);
            if occurs(s, n) {
                let i = choose|i: int| occurs_at(s, n, i);
                assert(i > 0);
                assert(t.subrange(i - 1, i - 1 + n.len()) =~= s.subrange(i, i + n.len()));
                assert(occurs_at(t, n, i - 1));
            }
        }
    }
}

/// The legacy build drops the check of the configuration from both of its configuration
/// files, where they are there and speak of it. No other file is changed, and none is
/// added or removed.
pub proof fn law_legacy_check_is_dropped(files: Map<Seq<char>, Seq<char>>, path: Seq<char>)
    requires
        files.dom().contains(path),
    ensures
        legacy_checks_dropped(files).dom() == files.dom(),
        ({
            let after = legacy_checks_dropped(files)[path];
            if (path == "build.config.gki"@ || path == "build.config.gki.aarch64"@) && occurs(
                files[path],
                "check_defconfig"@,
            ) {
                after.len() < files[path].len()
            } else {
                after == files[path]
            }
        }),
{
    reveal_strlit("build.config.gki");
    reveal_strlit("build.config.gki.aarch64");
    assert("build.config.gki"@.len() != "build.config.gki.aarch64"@.len());
    reveal_strlit("check_defconfig");
    assert(legacy_checks_dropped(files).dom() =~= files.dom());
    lemma_cut_is_shorter(files[path], "check_defconfig"@);
    if !occurs(files[path], "check_defconfig"@) {
        law_replace_needs_the_pattern(files[path], "check_defconfig"@, ""@);
    }
}

} // verus!
