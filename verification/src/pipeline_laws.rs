//! What the order of the stages promises, and what is left out.
use crate::pipeline::{left_out, stage_list, Stage};
use vstd::prelude::*;

verus! {

/// How far a build must have come for a stage: from an empty workspace to the summary.
pub open spec fn progress_of(stage: Stage) -> int {
    match stage {
        // The sources come first, and with them what their version is.
        Stage::SetupEnvironment => 1,
        Stage::EmptyKernelDir => 2,
        Stage::DownloadKernel => 3,
        Stage::SetTimestamp => 4,
        Stage::ExtractSublevel => 5,
        // Fixes come before features, and the root implementation before what goes into it.
        Stage::KernelFixes => 6,
        Stage::SetupRoot => 7,
        Stage::SetupSusfs => 8,
        Stage::FixSelinuxHide => 9,
        Stage::SetupDroidspaces => 10,
        Stage::PtracePatch => 11,
        Stage::UnicodeFix => 12,
        Stage::MiscConfigs => 13,
        Stage::DevicePatches => 14,
        Stage::BypassHack => 15,
        Stage::Branding => 16,
        Stage::RemoveProtectedExports => 17,
        // The tree is committed when nothing changes any more.
        Stage::CleanFlags => 18,
        Stage::ScanRejects => 19,
        Stage::BuildKernel => 20,
        Stage::GatherArtifacts => 21,
        Stage::WriteSummary => 22,
    }
}

/// The stages go forward: of two stages the one that needs less comes first, and none
/// comes twice.
pub proof fn law_stages_go_forward(bypass: bool, i: int, j: int)
    requires
        0 <= i < stage_list(bypass).len(),
        0 <= j < stage_list(bypass).len(),
    ensures
        i < j <==> progress_of(stage_list(bypass)[i]) < progress_of(stage_list(bypass)[j]),
{
    lemma_progress(bypass, i);
    lemma_progress(bypass, j);
}

proof fn lemma_progress(bypass: bool, i: int)
    requires
        0 <= i < stage_list(bypass).len(),
    ensures
        progress_of(stage_list(bypass)[i]) == (if bypass || i < 14 {
            i + 1
        } else {
            i + 2
        }),
{
    let list = stage_list(bypass);
    assert(bypass ==> list.len() == 22);
    assert(!bypass ==> list.len() == 21);
}

/// No stage is left out, but for the one that is only made on request.
pub proof fn law_every_stage_is_made(bypass: bool, stage: Stage)
    ensures
        stage_list(bypass).contains(stage) <==> bypass || stage != Stage::BypassHack,
{
    let list = stage_list(bypass);
    let n = progress_of(stage);
    let i = if bypass || n < 15 {
        n - 1
    } else {
        n - 2
    };
    if stage != Stage::BypassHack || bypass {
        lemma_progress(bypass, i);
        lemma_stage_by_progress(list[i], stage);
        assert(list[i] == stage);
    } else if list.contains(stage) {
        let k = choose|k: int| 0 <= k < list.len() && list[k] == stage;
        lemma_progress(bypass, k);
    }
}

/// Different stages need differently much.
proof fn lemma_stage_by_progress(a: Stage, b: Stage)
    requires
        progress_of(a) == progress_of(b),
    ensures
        a == b,
{
}

/// The features that are left out are these six, each with the actions that have it.
pub proof fn law_six_features_are_left_out()
    ensures
        left_out().len() == 6,
        left_out().contains(
            ("NoMount"@, "nomount/action.yml + nomount-metamodule/action.yml"@),
        ),
        left_out().contains(("Baseband Guard"@, "bbg/action.yml"@)),
        left_out().contains(
            ("Networking"@, "networking/action.yml, networking-config, cifs, bbrv3"@),
        ),
        left_out().contains(("NTSync"@, "ntsync/action.yml"@)),
        left_out().contains(("BPF stack"@, "btf/action.yml, fuse-bpf/action.yml"@)),
        left_out().contains(("Performance"@, "performance/action.yml"@)),
{
    let l = left_out();
    assert(l[0].0 == "NoMount"@ && l[1].0 == "Baseband Guard"@ && l[2].0 == "Networking"@);
    assert(l[3].0 == "NTSync"@ && l[4].0 == "BPF stack"@ && l[5].0 == "Performance"@);
}

} // verus!
