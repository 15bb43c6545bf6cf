//! The root implementation: where it comes from and how it is wired in.
use crate::ctx::{kernel_dir_of, ksu_next_susfs_repo, Ctx, Options};
use crate::failure::{
    checkout_exists_text, integration_exists_text, mixed_roots_text, no_drivers_text,
    no_integration_text, root_commit_not_full_text, root_unresolved_text, Failure,
};
use crate::paths::{joined_path, path_join};
use crate::plan::{command, command_in, step_models, Command, OptionSet, Step, StepModel};
use crate::process::{full_sha, is_full_sha};
use crate::sed::{append_line, appended, inserted_before, sed_insert_before};
use crate::sources::{clone_pinned, clone_pinned_steps, opt_string};
use crate::text::{contains, joined_with, occurs, same, slices, texts};
use crate::words::{cat2, cat5, join_with};
use vstd::prelude::*;

verus! {

// ---------------------------------------------------------------------------
// Where the commit comes from
// ---------------------------------------------------------------------------

/// Where a commit comes from.
#[derive(Debug)]
pub enum Source {
    /// It was given.
    Given { sha: String },
    /// It is what a remote lists for a reference.
    Remote { repo: String, reference: String },
}

/// The model of where a commit comes from.
#[verifier::ext_equal]
pub enum SourceModel {
    Given { sha: Seq<char> },
    Remote { repo: Seq<char>, reference: Seq<char> },
}

impl View for Source {
    type V = SourceModel;

    open spec fn view(&self) -> SourceModel {
        match self {
            Source::Given { sha } => SourceModel::Given { sha: sha@ },
            Source::Remote { repo, reference } => SourceModel::Remote {
                repo: repo@,
                reference: reference@,
            },
        }
    }
}

/// The repository of KernelSU-Next itself.
pub open spec fn ksu_next_repo() -> Seq<char> {
    "https://github.com/KernelSU-Next/KernelSU-Next.git"@
}

/// The commit that was pinned, else the tip of a branch.
pub open spec fn pinned_or_tip(
    pin: Option<Seq<char>>,
    repo: Seq<char>,
    branch: Seq<char>,
) -> SourceModel {
    match pin {
        Some(sha) => SourceModel::Given { sha },
        None => SourceModel::Remote { repo, reference: "refs/heads/"@ + branch },
    }
}

/// The commit that was pinned, else the tip of a branch.
pub fn pinned_source(pin: &Option<String>, repo: &str, branch: &str) -> (r: Source)
    ensures
        r@ == pinned_or_tip(opt_string(*pin), repo@, branch@),
{
    match pin {
        Some(sha) => Source::Given { sha: sha.as_str().to_owned() },
        None => Source::Remote { repo: repo.to_owned(), reference: cat2("refs/heads/", branch) },
    }
}

/// Where the commit of the root implementation comes from.
pub fn root_source(opts: &Options) -> (r: Source)
    ensures
        r@ == pinned_or_tip(opt_string(opts.root_commit), ksu_next_susfs_repo(), "dev-susfs"@),
{
    pinned_source(
        &opts.root_commit,
        "https://github.com/pershoot/KernelSU-Next.git",
        "dev-susfs",
    )
}

/// Where it comes from when the fork does not answer.
pub fn root_fallback() -> (r: Source)
    ensures
        r@ == pinned_or_tip(None, ksu_next_repo(), "dev"@),
{
    pinned_source(&None, "https://github.com/KernelSU-Next/KernelSU-Next.git", "dev")
}

// ---------------------------------------------------------------------------
// What must not be there
// ---------------------------------------------------------------------------

/// What is there in the kernel directory before the root implementation comes in.
#[derive(Clone, Copy, Debug)]
pub struct RootFacts {
    /// `KernelSU` is there.
    pub kernelsu: bool,
    /// `ReSukiSU` is there.
    pub resukisu: bool,
    /// `KernelSU-Next` is there.
    pub kernelsu_next: bool,
    /// `common/drivers` is a directory.
    pub common_drivers: bool,
    /// `drivers` is a directory.
    pub drivers: bool,
    /// `common/drivers/kernelsu` is there.
    pub common_integration: bool,
    /// `drivers/kernelsu` is there.
    pub integration: bool,
}

/// The directory of the drivers, or the message about what is in the way.
pub open spec fn drivers_dir_of(kernel: Seq<char>, sha: Seq<char>, w: RootFacts) -> Result<
    Seq<char>,
    Seq<char>,
> {
    if !is_full_sha(sha) {
        Err(root_commit_not_full_text(sha))
    } else if w.kernelsu {
        Err(mixed_roots_text("KernelSU"@))
    } else if w.resukisu {
        Err(mixed_roots_text("ReSukiSU"@))
    } else if !w.common_drivers && !w.drivers {
        Err(no_drivers_text())
    } else if (w.common_drivers && w.common_integration) || (!w.common_drivers && w.integration) {
        Err(integration_exists_text())
    } else if w.kernelsu_next {
        Err(checkout_exists_text("KernelSU-Next"@))
    } else if w.common_drivers {
        Ok(joined_path(kernel, "common/drivers"@))
    } else {
        Ok(joined_path(kernel, "drivers"@))
    }
}

/// What is looked for before the root implementation comes in.
#[derive(Debug)]
pub struct RootPlaces {
    pub kernelsu: String,
    pub resukisu: String,
    pub kernelsu_next: String,
    pub common_drivers: String,
    pub drivers: String,
    pub common_integration: String,
    pub integration: String,
}

/// Where to look before the root implementation comes in.
pub fn root_places(ctx: &Ctx) -> (r: RootPlaces)
    ensures
        ({
            let kernel = kernel_dir_of(ctx.workspace());
            &&& r.kernelsu@ == joined_path(kernel, "KernelSU"@)
            &&& r.resukisu@ == joined_path(kernel, "ReSukiSU"@)
            &&& r.kernelsu_next@ == joined_path(kernel, "KernelSU-Next"@)
            &&& r.common_drivers@ == joined_path(kernel, "common/drivers"@)
            &&& r.drivers@ == joined_path(kernel, "drivers"@)
            &&& r.common_integration@ == joined_path(kernel, "common/drivers/kernelsu"@)
            &&& r.integration@ == joined_path(kernel, "drivers/kernelsu"@)
        }),
{
    let kernel = ctx.kernel_dir();
    RootPlaces {
        kernelsu: path_join(&kernel, "KernelSU"),
        resukisu: path_join(&kernel, "ReSukiSU"),
        kernelsu_next: path_join(&kernel, "KernelSU-Next"),
        common_drivers: path_join(&kernel, "common/drivers"),
        drivers: path_join(&kernel, "drivers"),
        common_integration: path_join(&kernel, "common/drivers/kernelsu"),
        integration: path_join(&kernel, "drivers/kernelsu"),
    }
}

/// Finds the directory of the drivers, and fails where the commit is not given in full
/// or another integration is in the way.
pub fn check_root(ctx: &Ctx, sha: &str, w: RootFacts) -> (r: Result<String, Failure>)
    ensures
        match drivers_dir_of(kernel_dir_of(ctx.workspace()), sha@, w) {
            Ok(dir) => r matches Ok(d) && d@ == dir,
            Err(text) => r matches Err(e) && e@ == text,
        },
{
    if !full_sha(sha) {
        return Err(Failure::RootCommitNotFull { commit: sha.to_owned() });
    }
    if w.kernelsu {
        return Err(Failure::MixedRoots { found: "KernelSU".to_owned() });
    }
    if w.resukisu {
        return Err(Failure::MixedRoots { found: "ReSukiSU".to_owned() });
    }
    if !w.common_drivers && !w.drivers {
        return Err(Failure::NoDrivers);
    }
    if (w.common_drivers && w.common_integration) || (!w.common_drivers && w.integration) {
        return Err(Failure::IntegrationExists);
    }
    if w.kernelsu_next {
        return Err(Failure::CheckoutExists { directory: "KernelSU-Next".to_owned() });
    }
    let kernel = ctx.kernel_dir();
    if w.common_drivers {
        Ok(path_join(&kernel, "common/drivers"))
    } else {
        Ok(path_join(&kernel, "drivers"))
    }
}

// ---------------------------------------------------------------------------
// The remotes
// ---------------------------------------------------------------------------

/// The remotes, in the order in which they are tried.
pub open spec fn root_remotes() -> Seq<Seq<char>> {
    seq![ksu_next_susfs_repo(), ksu_next_repo()]
}

/// What comes after the clone from remote `i`.
pub enum CloneNext {
    /// It succeeded, and its remote is this one.
    Use { repo: String },
    /// What is left of it is removed, and this remote is next.
    Try { index: usize },
    /// It was the last remote.
    Fail { failure: Failure },
}

/// The remote of that number, if there is one.
pub fn root_remote(i: usize) -> (r: Option<&'static str>)
    ensures
        r is Some <==> i < root_remotes().len(),
        r matches Some(s) ==> s@ == root_remotes()[i as int],
{
    if i == 0 {
        Some("https://github.com/pershoot/KernelSU-Next.git")
    } else if i == 1 {
        Some("https://github.com/KernelSU-Next/KernelSU-Next.git")
    } else {
        None
    }
}

/// Tells what comes after the clone from remote `i`.
pub fn after_clone(i: usize, succeeded: bool) -> (r: CloneNext)
    requires
        i < root_remotes().len(),
    ensures
        succeeded ==> (r matches CloneNext::Use { repo } && repo@ == root_remotes()[i as int]),
        !succeeded && i + 1 < root_remotes().len() ==> r == (CloneNext::Try {
            index: (i + 1) as usize,
        }),
        !succeeded && i + 1 == root_remotes().len() ==> (r matches CloneNext::Fail { failure }
            && failure@ == root_unresolved_text()),
{
    if succeeded {
        match root_remote(i) {
            Some(repo) => CloneNext::Use { repo: repo.to_owned() },
            None => CloneNext::Fail { failure: Failure::RootUnresolved },
        }
    } else if i == 0 {
        CloneNext::Try { index: 1 }
    } else {
        CloneNext::Fail { failure: Failure::RootUnresolved }
    }
}

/// Where the root implementation is checked out.
pub fn root_checkout(ctx: &Ctx) -> (r: String)
    ensures
        r@ == joined_path(kernel_dir_of(ctx.workspace()), "KernelSU-Next"@),
{
    path_join(&ctx.kernel_dir(), "KernelSU-Next")
}

/// The steps that clone the root implementation from a remote.
pub fn root_clone(ctx: &Ctx, repo: &str, sha: &str) -> (r: Vec<Step>)
    ensures
        step_models(r@) == clone_pinned_steps(
            repo@,
            kernel_dir_of(ctx.workspace()),
            joined_path(kernel_dir_of(ctx.workspace()), "KernelSU-Next"@),
            sha@,
        ),
{
    clone_pinned(repo, &ctx.kernel_dir(), &root_checkout(ctx), sha)
}

/// The Kconfig and the Makefile of the part for the kernel.
pub fn integration_files(checkout: &str) -> (r: (String, String))
    ensures
        r.0@ == joined_path(checkout@, "kernel/Kconfig"@),
        r.1@ == joined_path(checkout@, "kernel/Makefile"@),
{
    (path_join(checkout, "kernel/Kconfig"), path_join(checkout, "kernel/Makefile"))
}

/// The command that tells the version of a checkout.
pub fn describe_command(checkout: &str) -> (r: Command)
    ensures
        r@ == command_in(
            checkout@,
            seq!["git"@, "describe"@, "--tags"@, "--always"@, "--dirty"@],
        ),
{
    let words = vec!["git", "describe", "--tags", "--always", "--dirty"];
    assert(slices(words@) =~= seq!["git"@, "describe"@, "--tags"@, "--always"@, "--dirty"@]);
    command(checkout, words)
}

/// Fails where the checkout has no part for the kernel.
pub fn check_integration(kconfig: bool, makefile: bool) -> (r: Result<(), Failure>)
    ensures
        r is Ok <==> kconfig && makefile,
        r matches Err(e) ==> e@ == no_integration_text(),
{
    if kconfig && makefile {
        Ok(())
    } else {
        Err(Failure::NoIntegration)
    }
}

/// The note about the root implementation.
pub open spec fn root_note(repo: Seq<char>, sha: Seq<char>, version: Seq<char>) -> Seq<char> {
    "root="@ + repo + " commit="@ + sha + " version="@ + version
}

/// Records the root implementation that was checked out.
pub fn record_root(ctx: &mut Ctx, repo: &str, sha: &str, version: &str)
    ensures
        final(ctx).root_repo@ == repo@,
        final(ctx).root_sha@ == sha@,
        texts(final(ctx).notes@) == texts(old(ctx).notes@).push(
            root_note(repo@, sha@, version@),
        ),
        *final(ctx) == (Ctx {
            root_repo: final(ctx).root_repo,
            root_sha: final(ctx).root_sha,
            notes: final(ctx).notes,
            ..*old(ctx)
        }),
{
    ctx.root_repo = repo.to_owned();
    ctx.root_sha = sha.to_owned();
    let text = cat5("root=", repo, " commit=", sha, " version=");
    ctx.note(cat2(&text, version));
}

// ---------------------------------------------------------------------------
// Registration
// ---------------------------------------------------------------------------

/// The Makefile of the drivers with the root implementation in it.
pub open spec fn registered_makefile(s: Seq<char>) -> Seq<char> {
    if occurs(s, "obj-$(CONFIG_KSU) += kernelsu/"@) {
        s
    } else {
        appended(s, "obj-$(CONFIG_KSU) += kernelsu/"@)
    }
}

/// The Kconfig of the drivers with the root implementation in it.
pub open spec fn registered_kconfig(s: Seq<char>) -> Seq<char> {
    if occurs(s, "source \"drivers/kernelsu/Kconfig\""@) {
        s
    } else {
        inserted_before(s, "endmenu"@, "source \"drivers/kernelsu/Kconfig\""@)
    }
}

/// Registers the root implementation in the Makefile of the drivers.
pub fn register_makefile(s: &str) -> (r: String)
    ensures
        r@ == registered_makefile(s@),
{
    if contains(s, "obj-$(CONFIG_KSU) += kernelsu/") {
        s.to_owned()
    } else {
        append_line(s, "obj-$(CONFIG_KSU) += kernelsu/")
    }
}

/// Registers the root implementation in the Kconfig of the drivers.
pub fn register_kconfig(s: &str) -> (r: String)
    ensures
        r@ == registered_kconfig(s@),
{
    if contains(s, "source \"drivers/kernelsu/Kconfig\"") {
        s.to_owned()
    } else {
        sed_insert_before(s, "endmenu", "source \"drivers/kernelsu/Kconfig\"")
    }
}

/// How the root implementation is wired in: `link` is made a link to `target`, the two
/// files are registered in, and the options are set.
#[derive(Debug)]
pub struct Wiring {
    pub link: String,
    pub target: String,
    pub makefile: String,
    pub kconfig: String,
    pub set: OptionSet,
}

/// How the root implementation in `checkout` is wired into the directory `drivers`.
pub fn wiring(checkout: &str, drivers: &str) -> (r: Wiring)
    ensures
        r.link@ == joined_path(drivers@, "kernelsu"@),
        r.target@ == joined_path(checkout@, "kernel"@),
        r.makefile@ == joined_path(drivers@, "Makefile"@),
        r.kconfig@ == joined_path(drivers@, "Kconfig"@),
        r.set == OptionSet::Root,
{
    Wiring {
        link: path_join(drivers, "kernelsu"),
        target: path_join(checkout, "kernel"),
        makefile: path_join(drivers, "Makefile"),
        kconfig: path_join(drivers, "Kconfig"),
        set: OptionSet::Root,
    }
}

// ---------------------------------------------------------------------------
// Relative paths
// ---------------------------------------------------------------------------

/// How many leading parts two paths have in common.
pub open spec fn common_parts(a: Seq<Seq<char>>, b: Seq<Seq<char>>) -> nat
    decreases a.len(),
{
    if a.len() == 0 || b.len() == 0 || a[0] != b[0] {
        0
    } else {
        1 + common_parts(a.skip(1), b.skip(1))
    }
}

/// The way from `base` to `target`: up to what the two have in common, then down.
pub open spec fn way_between(target: Seq<Seq<char>>, base: Seq<Seq<char>>) -> Seq<Seq<char>> {
    let n = common_parts(target, base) as int;
    Seq::new((base.len() - n) as nat, |i: int| ".."@) + target.skip(n)
}

/// The parts of `target` as seen from `base`; one point where the two are the same.
pub open spec fn relative_parts(target: Seq<Seq<char>>, base: Seq<Seq<char>>) -> Seq<Seq<char>> {
    if way_between(target, base).len() == 0 {
        seq!["."@]
    } else {
        way_between(target, base)
    }
}

/// Where one arrives from `base` by the parts of a path.
pub open spec fn walked(base: Seq<Seq<char>>, path: Seq<Seq<char>>) -> Seq<Seq<char>>
    decreases path.len(),
{
    if path.len() == 0 {
        base
    } else {
        let at = walked(base, path.drop_last());
        if path.last() == ".."@ {
            if at.len() == 0 {
                at
            } else {
                at.drop_last()
            }
        } else if path.last() == "."@ {
            at
        } else {
            at.push(path.last())
        }
    }
}

proof fn lemma_common_parts(a: Seq<Seq<char>>, b: Seq<Seq<char>>)
    ensures
        common_parts(a, b) <= a.len(),
        common_parts(a, b) <= b.len(),
        a.take(common_parts(a, b) as int) == b.take(common_parts(a, b) as int),
    decreases a.len(),
{
    let n = common_parts(a, b) as int;
    if a.len() > 0 && b.len() > 0 && a[0] == b[0] {
        lemma_common_parts(a.skip(1), b.skip(1));
        assert(a.take(n) =~= seq![a[0]] + a.skip(1).take(n - 1));
        assert(b.take(n) =~= seq![b[0]] + b.skip(1).take(n - 1));
    } else {
        assert(a.take(0) =~= b.take(0));
    }
}

/// `realpath --relative-to=<base> <target>`: the path of `target` relative to `base`, both
/// given by their parts.
pub fn path_relative(target: &Vec<String>, base: &Vec<String>) -> (r: String)
    ensures
        r@ == joined_with(relative_parts(texts(target@), texts(base@)), "/"@),
{
    let ghost a = texts(target@);
    let ghost b = texts(base@);
    let mut n: usize = 0;
    assert(a.skip(0) =~= a && b.skip(0) =~= b);
    while n < target.len() && n < base.len() && same(&target[n], &base[n])
        invariant
            n <= target@.len(),
            n <= base@.len(),
            a == texts(target@),
            b == texts(base@),
            common_parts(a, b) == n + common_parts(a.skip(n as int), b.skip(n as int)),
        decreases target@.len() - n,
    {
        assert(a.skip(n as int)[0] == a[n as int] && b.skip(n as int)[0] == b[n as int]);
        assert(a.skip(n as int).skip(1) =~= a.skip(n + 1));
        assert(b.skip(n as int).skip(1) =~= b.skip(n + 1));
        n += 1;
    }
    proof {
        if n < a.len() && n < b.len() {
            assert(a.skip(n as int)[0] == a[n as int] && b.skip(n as int)[0] == b[n as int]);
        }
    }
    let ghost want = way_between(a, b);
    let mut parts: Vec<String> = Vec::new();
    let mut i: usize = n;
    assert(texts(parts@) =~= want.take(0));
    while i < base.len()
        invariant
            n <= i <= base@.len(),
            n == common_parts(a, b),
            a == texts(target@),
            b == texts(base@),
            want == way_between(a, b),
            texts(parts@) == want.take(i - n),
        decreases base@.len() - i,
    {
        let ghost before = texts(parts@);
        parts.push("..".to_owned());
        assert(texts(parts@) =~= before.push(".."@));
        i += 1;
        assert(texts(parts@) =~= want.take(i - n));
    }
    let mut j: usize = n;
    while j < target.len()
        invariant
            n <= j <= target@.len(),
            n == common_parts(a, b),
            n <= base@.len(),
            a == texts(target@),
            b == texts(base@),
            want == way_between(a, b),
            texts(parts@) == want.take(base@.len() - n + (j - n)),
        decreases target@.len() - j,
    {
        let ghost before = texts(parts@);
        parts.push(target[j].as_str().to_owned());
        assert(texts(parts@) =~= before.push(a[j as int]));
        j += 1;
        assert(texts(parts@) =~= want.take(base@.len() - n + (j - n)));
    }
    assert(want.take(want.len() as int) =~= want);
    if parts.len() == 0 {
        parts.push(".".to_owned());
        assert(texts(parts@) =~= seq!["."@]);
    }
    join_with(&parts, "/")
}

/// Going up from a directory.
proof fn lemma_walk_up(base: Seq<Seq<char>>, k: nat)
    requires
        k <= base.len(),
    ensures
        walked(base, Seq::new(k, |i: int| ".."@)) == base.take(base.len() - k),
    decreases k,
{
    let ups = Seq::new(k, |i: int| ".."@);
    if k == 0 {
        assert(base.take(base.len() as int) =~= base);
    } else {
        assert(ups.drop_last() =~= Seq::new((k - 1) as nat, |i: int| ".."@));
        lemma_walk_up(base, (k - 1) as nat);
        assert(base.take(base.len() - k + 1).drop_last() =~= base.take(base.len() - k));
    }
}

/// Going down from a directory, after a first stretch.
proof fn lemma_walk_down(base: Seq<Seq<char>>, first: Seq<Seq<char>>, down: Seq<Seq<char>>)
    requires
        forall|i: int| 0 <= i < down.len() ==> #[trigger] down[i] != ".."@ && down[i] != "."@,
    ensures
        walked(base, first + down) == walked(base, first) + down,
    decreases down.len(),
{
    if down.len() == 0 {
        assert(first + down =~= first);
        assert(walked(base, first) + down =~= walked(base, first));
    } else {
        assert((first + down).drop_last() =~= first + down.drop_last());
        lemma_walk_down(base, first, down.drop_last());
        assert(down[down.len() - 1] != ".."@ && down[down.len() - 1] != "."@);
        assert(walked(base, first + down.drop_last()).push(down.last()) =~= walked(base, first)
            + down);
    }
}

/// The relative path leads from `base` to `target`.
pub proof fn law_relative_path_leads_to_its_target(target: Seq<Seq<char>>, base: Seq<Seq<char>>)
    requires
        forall|i: int| 0 <= i < target.len() ==> #[trigger] target[i] != ".."@ && target[i] != "."@,
    ensures
        walked(base, relative_parts(target, base)) == target,
{
    lemma_common_parts(target, base);
    let n = common_parts(target, base) as int;
    lemma_walk_up(base, (base.len() - n) as nat);
    let down = target.skip(n);
    assert forall|i: int| 0 <= i < down.len() implies #[trigger] down[i] != ".."@ && down[i]
        != "."@ by {
        assert(down[i] == target[n + i]);
    }
    lemma_walk_down(base, Seq::new((base.len() - n) as nat, |i: int| ".."@), down);
    assert(target.take(n) + target.skip(n) =~= target);
    if way_between(target, base).len() == 0 {
        reveal_strlit(".");
        reveal_strlit("..");
        assert("."@.len() != ".."@.len());
        reveal_with_fuel(walked, 2);
        assert(way_between(target, base) =~= Seq::<Seq<char>>::empty());
        assert(seq!["."@].drop_last() =~= Seq::<Seq<char>>::empty());
    }
}

// ---------------------------------------------------------------------------
// The whole setup
// ---------------------------------------------------------------------------

/// How far the setup has come.
#[derive(Debug)]
pub enum RootState {
    /// Nothing was done.
    Start,
    /// A remote was asked for the commit, the fork first.
    Asked { fallback: bool },
    /// The commit is known; what is in the kernel directory is not.
    Resolved { sha: String },
    /// A clone from the remote of that number is under way.
    Cloning { sha: String, drivers: String, remote: usize },
    /// The checkout is there; what it holds is not known.
    Cloned { drivers: String, repo: String },
    /// The checkout is complete; its commit and version are not known.
    Complete { drivers: String, repo: String },
    /// All is recorded, and the integration is wired in.
    Wired { drivers: String },
}

/// What came back from outside.
#[derive(Debug)]
pub enum RootEvent {
    /// The setup begins.
    Begin,
    /// What the remote answered.
    Answered { answer: Result<String, Failure> },
    /// What is in the kernel directory.
    Seen { facts: RootFacts },
    /// Whether the clone succeeded.
    CloneEnded { succeeded: bool },
    /// Whether the checkout holds the two files that an integration needs.
    Checked { kconfig: bool, makefile: bool },
    /// The commit and version of the checkout.
    Described { sha: String, version: String },
}

/// What is to be done next.
#[derive(Debug)]
pub enum RootAction {
    /// Ask a remote for the commit of a reference.
    Ask { repo: String, reference: String },
    /// Look into the kernel directory.
    Look,
    /// Clone, after what is left of an earlier clone is removed.
    Clone { steps: Vec<Step> },
    /// Look into the checkout.
    Check,
    /// Ask the checkout for its commit and version.
    Describe,
    /// Link the integration into the drivers, register it and set its options.
    Wire { drivers: String },
    /// Nothing: what came back does not belong to the state.
    Nothing,
}

/// The model of a state.
#[verifier::ext_equal]
pub enum RootStateModel {
    Start,
    Asked { fallback: bool },
    Resolved { sha: Seq<char> },
    Cloning { sha: Seq<char>, drivers: Seq<char>, remote: int },
    Cloned { drivers: Seq<char>, repo: Seq<char> },
    Complete { drivers: Seq<char>, repo: Seq<char> },
    Wired { drivers: Seq<char> },
}

/// The model of an action.
#[verifier::ext_equal]
pub enum RootActionModel {
    Ask { repo: Seq<char>, reference: Seq<char> },
    Look,
    Clone { steps: Seq<StepModel> },
    Check,
    Describe,
    Wire { drivers: Seq<char> },
    Nothing,
}

impl View for RootState {
    type V = RootStateModel;

    open spec fn view(&self) -> RootStateModel {
        match self {
            RootState::Start => RootStateModel::Start,
            RootState::Asked { fallback } => RootStateModel::Asked { fallback: *fallback },
            RootState::Resolved { sha } => RootStateModel::Resolved { sha: sha@ },
            RootState::Cloning { sha, drivers, remote } => RootStateModel::Cloning {
                sha: sha@,
                drivers: drivers@,
                remote: *remote as int,
            },
            RootState::Cloned { drivers, repo } => RootStateModel::Cloned {
                drivers: drivers@,
                repo: repo@,
            },
            RootState::Complete { drivers, repo } => RootStateModel::Complete {
                drivers: drivers@,
                repo: repo@,
            },
            RootState::Wired { drivers } => RootStateModel::Wired { drivers: drivers@ },
        }
    }
}

impl View for RootAction {
    type V = RootActionModel;

    open spec fn view(&self) -> RootActionModel {
        match self {
            RootAction::Ask { repo, reference } => RootActionModel::Ask {
                repo: repo@,
                reference: reference@,
            },
            RootAction::Look => RootActionModel::Look,
            RootAction::Clone { steps } => RootActionModel::Clone { steps: step_models(steps@) },
            RootAction::Check => RootActionModel::Check,
            RootAction::Describe => RootActionModel::Describe,
            RootAction::Wire { drivers } => RootActionModel::Wire { drivers: drivers@ },
            RootAction::Nothing => RootActionModel::Nothing,
        }
    }
}

/// The steps that clone the root implementation from the remote of that number.
pub open spec fn root_clone_steps(ws: Seq<char>, remote: int, sha: Seq<char>) -> Seq<StepModel> {
    clone_pinned_steps(
        root_remotes()[remote],
        kernel_dir_of(ws),
        joined_path(kernel_dir_of(ws), "KernelSU-Next"@),
        sha,
    )
}

/// The next state and action, or the message of a failure.
pub open spec fn root_next(
    ws: Seq<char>,
    pin: Option<Seq<char>>,
    state: RootStateModel,
    event: RootEvent,
) -> Result<(RootStateModel, RootActionModel), Seq<char>> {
    match (state, event) {
        (RootStateModel::Start, RootEvent::Begin) => match pin {
            Some(sha) => Ok((RootStateModel::Resolved { sha }, RootActionModel::Look)),
            None => Ok(
                (
                    RootStateModel::Asked { fallback: false },
                    RootActionModel::Ask {
                        repo: ksu_next_susfs_repo(),
                        reference: "refs/heads/"@ + "dev-susfs"@,
                    },
                ),
            ),
        },
        (RootStateModel::Asked { fallback }, RootEvent::Answered { answer }) => match answer {
            Ok(s) => Ok((RootStateModel::Resolved { sha: s@ }, RootActionModel::Look)),
            Err(e) => if fallback {
                Err(e@)
            } else {
                Ok(
                    (
                        RootStateModel::Asked { fallback: true },
                        RootActionModel::Ask {
                            repo: ksu_next_repo(),
                            reference: "refs/heads/"@ + "dev"@,
                        },
                    ),
                )
            },
        },
        (RootStateModel::Resolved { sha }, RootEvent::Seen { facts }) => match drivers_dir_of(
            kernel_dir_of(ws),
            sha,
            facts,
        ) {
            Ok(drivers) => Ok(
                (
                    RootStateModel::Cloning { sha, drivers, remote: 0 },
                    RootActionModel::Clone { steps: root_clone_steps(ws, 0, sha) },
                ),
            ),
            Err(text) => Err(text),
        },
        (
            RootStateModel::Cloning { sha, drivers, remote },
            RootEvent::CloneEnded { succeeded },
        ) => if succeeded {
            Ok(
                (
                    RootStateModel::Cloned { drivers, repo: root_remotes()[remote] },
                    RootActionModel::Check,
                ),
            )
        } else if remote + 1 < root_remotes().len() {
            Ok(
                (
                    RootStateModel::Cloning { sha, drivers, remote: remote + 1 },
                    RootActionModel::Clone { steps: root_clone_steps(ws, remote + 1, sha) },
                ),
            )
        } else {
            Err(root_unresolved_text())
        },
        (
            RootStateModel::Cloned { drivers, repo },
            RootEvent::Checked { kconfig, makefile },
        ) => if kconfig && makefile {
            Ok((RootStateModel::Complete { drivers, repo }, RootActionModel::Describe))
        } else {
            Err(no_integration_text())
        },
        (RootStateModel::Complete { drivers, repo }, RootEvent::Described { sha, version }) => Ok(
            (RootStateModel::Wired { drivers }, RootActionModel::Wire { drivers }),
        ),
        (s, _) => Ok((s, RootActionModel::Nothing)),
    }
}

/// The state speaks of a remote that there is.
pub open spec fn is_root_state(s: RootStateModel) -> bool {
    s matches RootStateModel::Cloning { remote, .. } ==> 0 <= remote < root_remotes().len()
}

/// Goes one step on in the setup of the root implementation. Where the checkout is
/// described, it is recorded.
pub fn setup_root(ctx: &mut Ctx, state: RootState, event: RootEvent) -> (r: Result<
    (RootState, RootAction),
    Failure,
>)
    requires
        is_root_state(state@),
    ensures
        match root_next(
            old(ctx).workspace(),
            opt_string(old(ctx).opts.root_commit),
            state@,
            event,
        ) {
            Ok(want) => r matches Ok(p) && (p.0@, p.1@) == want && is_root_state(p.0@),
            Err(text) => r matches Err(e) && e@ == text,
        },
        match (state, event) {
            (RootState::Complete { repo, .. }, RootEvent::Described { sha, version }) => {
                &&& final(ctx).root_repo@ == repo@
                &&& final(ctx).root_sha@ == sha@
                &&& texts(final(ctx).notes@) == texts(old(ctx).notes@).push(
                    root_note(repo@, sha@, version@),
                )
                &&& *final(ctx) == (Ctx {
                    root_repo: final(ctx).root_repo,
                    root_sha: final(ctx).root_sha,
                    notes: final(ctx).notes,
                    ..*old(ctx)
                })
            },
            _ => *final(ctx) == *old(ctx),
        },
{
    match (state, event) {
        (RootState::Start, RootEvent::Begin) => match root_source(&ctx.opts) {
            Source::Given { sha } => Ok((RootState::Resolved { sha }, RootAction::Look)),
            Source::Remote { repo, reference } => Ok(
                (RootState::Asked { fallback: false }, RootAction::Ask { repo, reference }),
            ),
        },
        (RootState::Asked { fallback }, RootEvent::Answered { answer }) => match answer {
            Ok(sha) => Ok((RootState::Resolved { sha }, RootAction::Look)),
            Err(e) => if fallback {
                Err(e)
            } else {
                match root_fallback() {
                    Source::Remote { repo, reference } => Ok(
                        (RootState::Asked { fallback: true }, RootAction::Ask { repo, reference }),
                    ),
                    Source::Given { sha } => Ok((RootState::Resolved { sha }, RootAction::Look)),
                }
            },
        },
        (RootState::Resolved { sha }, RootEvent::Seen { facts }) => match check_root(
            ctx,
            &sha,
            facts,
        ) {
            Ok(drivers) => {
                let steps = root_clone(
                    ctx,
                    "https://github.com/pershoot/KernelSU-Next.git",
                    &sha,
                );
                Ok((RootState::Cloning { sha, drivers, remote: 0 }, RootAction::Clone { steps }))
            },
            Err(e) => Err(e),
        },
        (
            RootState::Cloning { sha, drivers, remote },
            RootEvent::CloneEnded { succeeded },
        ) => match after_clone(remote, succeeded) {
            CloneNext::Use { repo } => Ok(
                (RootState::Cloned { drivers, repo }, RootAction::Check),
            ),
            CloneNext::Try { index } => match root_remote(index) {
                Some(repo) => {
                    let steps = root_clone(ctx, repo, &sha);
                    Ok(
                        (
                            RootState::Cloning { sha, drivers, remote: index },
                            RootAction::Clone { steps },
                        ),
                    )
                },
                None => Err(Failure::RootUnresolved),
            },
            CloneNext::Fail { failure } => Err(failure),
        },
        (
            RootState::Cloned { drivers, repo },
            RootEvent::Checked { kconfig, makefile },
        ) => match check_integration(kconfig, makefile) {
            Ok(_) => Ok((RootState::Complete { drivers, repo }, RootAction::Describe)),
            Err(e) => Err(e),
        },
        (RootState::Complete { drivers, repo }, RootEvent::Described { sha, version }) => {
            record_root(ctx, &repo, &sha, &version);
            let there = drivers.as_str().to_owned();
            Ok((RootState::Wired { drivers }, RootAction::Wire { drivers: there }))
        },
        (s, _) => Ok((s, RootAction::Nothing)),
    }
}

/// Every remote is tried before the setup gives up on the clone, the fork first.
pub proof fn law_every_remote_is_tried(
    ws: Seq<char>,
    pin: Option<Seq<char>>,
    sha: Seq<char>,
    drivers: Seq<char>,
)
    ensures
        ({
            let failed = RootEvent::CloneEnded { succeeded: false };
            let first = RootStateModel::Cloning { sha, drivers, remote: 0 };
            let second = RootStateModel::Cloning { sha, drivers, remote: 1 };
            &&& root_next(ws, pin, first, failed) == Ok::<_, Seq<char>>(
                (second, RootActionModel::Clone { steps: root_clone_steps(ws, 1, sha) }),
            )
            &&& root_next(ws, pin, second, failed) == Err::<(RootStateModel, RootActionModel), _>(
                root_unresolved_text(),
            )
        }),
{
}

/// Nothing is cloned unless the commit is given in full and no other integration is
/// there.
pub proof fn law_clone_needs_a_clean_tree(
    ws: Seq<char>,
    pin: Option<Seq<char>>,
    sha: Seq<char>,
    facts: RootFacts,
)
    requires
        root_next(
            ws,
            pin,
            RootStateModel::Resolved { sha },
            RootEvent::Seen { facts },
        ) is Ok,
    ensures
        is_full_sha(sha),
        !facts.kernelsu && !facts.resukisu && !facts.kernelsu_next,
        facts.common_drivers || facts.drivers,
        facts.common_drivers ==> !facts.common_integration,
        !facts.common_drivers ==> !facts.integration,
{
}

} // verus!
