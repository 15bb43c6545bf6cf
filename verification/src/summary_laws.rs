//! What the summary and the metadata of a build promise.
use crate::ctx::Ctx;
use crate::family::{android_of, id_of, kernel_of};
use crate::naming::file_name_of;
use crate::sed_laws::lemma_has_in_joined;
use crate::summary::{
    metadata_fields, note_line, release_text, summary_first_rows, summary_head, summary_notes,
    summary_other_rows, summary_text, table_row, FieldModel,
};
use crate::text::{decimal, joined, occurs, occurs_at, signed_decimal, texts};
use vstd::prelude::*;

verus! {

/// The text has a row of the table with that name and that value.
pub open spec fn shows(text: Seq<char>, name: Seq<char>, value: Seq<char>) -> bool {
    occurs(text, "| **"@ + name + "** | "@ + value + " |\n"@)
}

/// What stands in a part of a text stands in the text.
proof fn lemma_stands_in(a: Seq<char>, b: Seq<char>, c: Seq<char>, x: Seq<char>)
    requires
        occurs(b, x),
    ensures
        occurs(a + b + c, x),
{
    let i = choose|i: int| occurs_at(b, x, i);
    let all = a + b + c;
    let p = a.len() + i;
    assert(all.subrange(p, p + x.len()) =~= b.subrange(i, i + x.len()));
    assert(occurs_at(all, x, p));
}

/// A text stands in itself.
proof fn lemma_whole(x: Seq<char>)
    ensures
        occurs(x, x),
{
    assert(x.subrange(0, x.len() as int) =~= x);
    assert(occurs_at(x, x, 0));
}

/// The rows of a list, one after the other.
spec fn rows_of(rows: Seq<(Seq<char>, Seq<char>)>) -> Seq<char>
    decreases rows.len(),
{
    if rows.len() == 0 {
        seq![]
    } else {
        rows_of(rows.drop_last()) + table_row(rows.last().0, rows.last().1)
    }
}

/// Every row of a list is shown.
proof fn lemma_rows_show(rows: Seq<(Seq<char>, Seq<char>)>, i: int)
    requires
        0 <= i < rows.len(),
    ensures
        shows(rows_of(rows), rows[i].0, rows[i].1),
    decreases rows.len(),
{
    let front = rows_of(rows.drop_last());
    let last = table_row(rows.last().0, rows.last().1);
    let none = Seq::<char>::empty();
    if i == rows.len() - 1 {
        lemma_whole(last);
        lemma_stands_in(front, last, none, last);
        assert(front + last + none =~= front + last);
    } else {
        lemma_rows_show(rows.drop_last(), i);
        lemma_stands_in(none, front, last, table_row(rows[i].0, rows[i].1));
        assert(none + front + last =~= front + last);
    }
}

/// The rows behind the version string, as a list.
spec fn other_rows(ctx: Ctx, image: Seq<char>, rejects: nat, susfs: Seq<char>) -> Seq<
    (Seq<char>, Seq<char>),
> {
    seq![
        ("Root Implementation"@, "KernelSU-Next"@),
        ("Root Commit"@, ctx.root_sha@),
        ("Root Remote"@, ctx.root_repo@),
        ("SUSFS Version"@, susfs),
        ("SUSFS Commit"@, ctx.susfs_sha@),
        ("DroidSpaces (LXC) Commit"@, ctx.droidspaces_sha@),
        ("Kernel Source Commit"@, ctx.kernel_sha@),
        ("Feature Set"@, "SUSFS+DS+KernelSU-Next"@),
        ("Patch Rejects"@, decimal(rejects)),
        ("SOURCE_DATE_EPOCH"@, signed_decimal(ctx.source_date_epoch as int)),
        ("Image"@, image),
    ]
}

proof fn lemma_other_rows(ctx: Ctx, image: Seq<char>, rejects: nat, susfs: Seq<char>)
    ensures
        rows_of(other_rows(ctx, image, rejects, susfs)) == summary_other_rows(
            ctx,
            image,
            rejects,
            susfs,
        ),
{
    let rows = other_rows(ctx, image, rejects, susfs);
    reveal_with_fuel(rows_of, 12);
    assert(rows.take(11).drop_last() =~= rows.take(10));
    assert(rows.take(10).drop_last() =~= rows.take(9));
    assert(rows.take(9).drop_last() =~= rows.take(8));
    assert(rows.take(8).drop_last() =~= rows.take(7));
    assert(rows.take(7).drop_last() =~= rows.take(6));
    assert(rows.take(6).drop_last() =~= rows.take(5));
    assert(rows.take(5).drop_last() =~= rows.take(4));
    assert(rows.take(4).drop_last() =~= rows.take(3));
    assert(rows.take(3).drop_last() =~= rows.take(2));
    assert(rows.take(2).drop_last() =~= rows.take(1));
    assert(rows.take(1).drop_last() =~= rows.take(0));
    assert(rows.take(11) =~= rows);
    assert(rows_of(rows.take(0)) =~= Seq::<char>::empty());
    assert(rows_of(rows) =~= summary_other_rows(ctx, image, rejects, susfs));
}

/// The summary of every build shows the release, where everything came from down to its
/// commit, how many hunks were rejected, the time stamp and the image; and the version of
/// the image where that is known.
pub proof fn law_summary_shows_the_build(
    ctx: Ctx,
    image: Seq<char>,
    rejects: nat,
    version: Seq<char>,
    susfs: Seq<char>,
)
    ensures
        ({
            let text = summary_text(ctx, image, rejects, version, susfs);
            &&& shows(text, "Status"@, "[+] Success"@)
            &&& shows(
                text,
                "Kernel"@,
                kernel_of(ctx.family) + "."@ + ctx.sublevel@ + "-"@ + android_of(ctx.family)
                    + "-"@ + ctx.os_patch_level@,
            )
            &&& shows(text, "Root Implementation"@, "KernelSU-Next"@)
            &&& shows(text, "Root Commit"@, ctx.root_sha@)
            &&& shows(text, "Root Remote"@, ctx.root_repo@)
            &&& shows(text, "SUSFS Version"@, susfs)
            &&& shows(text, "SUSFS Commit"@, ctx.susfs_sha@)
            &&& shows(text, "DroidSpaces (LXC) Commit"@, ctx.droidspaces_sha@)
            &&& shows(text, "Kernel Source Commit"@, ctx.kernel_sha@)
            &&& shows(text, "Feature Set"@, "SUSFS+DS+KernelSU-Next"@)
            &&& shows(text, "Patch Rejects"@, decimal(rejects))
            &&& shows(text, "SOURCE_DATE_EPOCH"@, signed_decimal(ctx.source_date_epoch as int))
            &&& shows(text, "Image"@, image)
            &&& version.len() > 0 ==> shows(text, "Version String"@, "`"@ + version + "`"@)
        }),
{
    let text = summary_text(ctx, image, rejects, version, susfs);
    let head = summary_head(ctx);
    let first = summary_first_rows(ctx, version);
    let other = summary_other_rows(ctx, image, rejects, susfs);
    let notes = summary_notes(texts(ctx.notes@));
    let rows = other_rows(ctx, image, rejects, susfs);
    lemma_other_rows(ctx, image, rejects, susfs);
    assert forall|i: int| 0 <= i < 11 implies shows(
        text,
        (#[trigger] rows[i]).0,
        rows[i].1,
    ) by {
        lemma_rows_show(rows, i);
        lemma_stands_in(head + first, other, notes, table_row(rows[i].0, rows[i].1));
    }
    assert(rows[0].0 == "Root Implementation"@);
    assert(rows[1].0 == "Root Commit"@);
    assert(rows[2].0 == "Root Remote"@);
    assert(rows[3].0 == "SUSFS Version"@);
    assert(rows[4].0 == "SUSFS Commit"@);
    assert(rows[5].0 == "DroidSpaces (LXC) Commit"@);
    assert(rows[6].0 == "Kernel Source Commit"@);
    assert(rows[7].0 == "Feature Set"@);
    assert(rows[8].0 == "Patch Rejects"@);
    assert(rows[9].0 == "SOURCE_DATE_EPOCH"@);
    assert(rows[10].0 == "Image"@);
    lemma_first_rows(ctx, version);
    assert(text == head + first + other + notes);
    lemma_first_rows_stay(head, first, other, notes, ctx, version);
}

/// What the first rows show is shown by a text that has them.
proof fn lemma_first_rows_stay(
    head: Seq<char>,
    first: Seq<char>,
    other: Seq<char>,
    notes: Seq<char>,
    ctx: Ctx,
    version: Seq<char>,
)
    requires
        shows(first, "Status"@, "[+] Success"@),
        shows(first, "Kernel"@, release_text(ctx)),
        version.len() > 0 ==> shows(first, "Version String"@, "`"@ + version + "`"@),
    ensures
        shows(head + first + other + notes, "Status"@, "[+] Success"@),
        shows(head + first + other + notes, "Kernel"@, release_text(ctx)),
        version.len() > 0 ==> shows(
            head + first + other + notes,
            "Version String"@,
            "`"@ + version + "`"@,
        ),
{
    let back = other + notes;
    assert(head + first + other + notes =~= head + first + back);
    lemma_stands_in(head, first, back, table_row("Status"@, "[+] Success"@));
    lemma_stands_in(head, first, back, table_row("Kernel"@, release_text(ctx)));
    if version.len() > 0 {
        let row = table_row("Version String"@, "`"@ + version + "`"@);
        lemma_stands_in(head, first, back, row);
    }
}

/// The first rows show the state, the release and the version where it is known.
proof fn lemma_first_rows(ctx: Ctx, version: Seq<char>)
    ensures
        ({
            let first = summary_first_rows(ctx, version);
            &&& shows(first, "Status"@, "[+] Success"@)
            &&& shows(first, "Kernel"@, release_text(ctx))
            &&& version.len() > 0 ==> shows(first, "Version String"@, "`"@ + version + "`"@)
        }),
{
    let first = summary_first_rows(ctx, version);
    let status = table_row("Status"@, "[+] Success"@);
    let kernel = table_row("Kernel"@, release_text(ctx));
    let none = Seq::<char>::empty();
    let tail = if version.len() == 0 {
        none
    } else {
        table_row("Version String"@, "`"@ + version + "`"@)
    };
    assert(first =~= status + kernel + tail);
    lemma_whole(status);
    lemma_whole(kernel);
    lemma_whole(tail);
    lemma_stands_in(none, status, kernel + tail, status);
    assert(first =~= none + status + (kernel + tail));
    lemma_stands_in(status, kernel, tail, kernel);
    lemma_stands_in(status + kernel, tail, none, tail);
    assert(first =~= status + kernel + tail + none);
}

/// Every note of a build is an item of the list at the end of its summary.
pub proof fn law_summary_lists_the_notes(
    ctx: Ctx,
    image: Seq<char>,
    rejects: nat,
    version: Seq<char>,
    susfs: Seq<char>,
    i: int,
)
    requires
        0 <= i < ctx.notes@.len(),
    ensures
        occurs(
            summary_text(ctx, image, rejects, version, susfs),
            "- "@ + ctx.notes@[i]@ + "\n"@,
        ),
{
    let items = texts(ctx.notes@).map_values(|n: Seq<char>| note_line(n));
    let item = note_line(texts(ctx.notes@)[i]);
    assert(items[i] == item);
    lemma_whole(item);
    lemma_has_in_joined(items, i, item);
    let none = Seq::<char>::empty();
    let title = "\n### Applied Fixes\n\n"@;
    let notes = summary_notes(texts(ctx.notes@));
    lemma_stands_in(title, joined(items), none, item);
    assert(title + joined(items) + none =~= notes);
    let front = summary_head(ctx) + summary_first_rows(ctx, version) + summary_other_rows(
        ctx,
        image,
        rejects,
        susfs,
    );
    lemma_stands_in(front, notes, none, item);
    assert(front + notes + none =~= summary_text(ctx, image, rejects, version, susfs));
}

/// The release of the summary is the name of the files of a build without a label.
pub proof fn law_release_names_the_files(ctx: Ctx)
    ensures
        release_text(ctx) == file_name_of(
            ctx.family,
            ctx.sublevel@,
            ctx.os_patch_level@,
            "Normal"@,
        ),
{
}

/// The metadata has a member of that name with that text among its own.
pub open spec fn tells(
    fields: Seq<(Seq<char>, FieldModel)>,
    member: Seq<char>,
    name: Seq<char>,
    text: Seq<char>,
) -> bool {
    exists|i: int|
        0 <= i < fields.len() && (#[trigger] fields[i]).0 == member && (
        fields[i].1 matches FieldModel::Texts(t) && t.contains((name, text)))
}

proof fn lemma_tells(fields: Seq<(Seq<char>, FieldModel)>, i: int, j: int)
    requires
        0 <= i < fields.len(),
        fields[i].1 is Texts,
        0 <= j < fields[i].1->Texts_0.len(),
    ensures
        tells(
            fields,
            fields[i].0,
            fields[i].1->Texts_0[j].0,
            fields[i].1->Texts_0[j].1,
        ),
{
    let t = fields[i].1->Texts_0;
    assert(t[j] == (t[j].0, t[j].1));
    assert(t.contains((t[j].0, t[j].1)));
}

/// The metadata of every build tells where everything came from down to its commit, what
/// was built, and what the summary says of it.
pub proof fn law_metadata_tells_the_build(
    ctx: Ctx,
    image: Seq<char>,
    rejects: int,
    version: Seq<char>,
    susfs: Seq<char>,
)
    ensures
        ({
            let m = metadata_fields(ctx, image, rejects, version, susfs);
            &&& m.len() == 8
            &&& tells(m, "root"@, "implementation"@, "KernelSU-Next"@)
            &&& tells(m, "root"@, "manager"@, "KernelSU Next Manager"@)
            &&& tells(m, "root"@, "commit"@, ctx.root_sha@)
            &&& tells(m, "root"@, "remote"@, ctx.root_repo@)
            &&& tells(m, "susfs"@, "branch"@, "gki-"@ + id_of(ctx.family))
            &&& tells(m, "susfs"@, "commit"@, ctx.susfs_sha@)
            &&& tells(m, "susfs"@, "version"@, susfs)
            &&& tells(m, "lxc"@, "project"@, "Droidspaces-OSS"@)
            &&& tells(m, "lxc"@, "commit"@, ctx.droidspaces_sha@)
            &&& tells(m, "kernel"@, "family"@, id_of(ctx.family))
            &&& tells(m, "kernel"@, "android"@, android_of(ctx.family))
            &&& tells(m, "kernel"@, "kernel_version"@, kernel_of(ctx.family))
            &&& tells(m, "kernel"@, "sublevel"@, ctx.sublevel@)
            &&& tells(m, "kernel"@, "os_patch_level"@, ctx.os_patch_level@)
            &&& tells(m, "kernel"@, "variant"@, ctx.opts.variant@)
            &&& tells(m, "kernel"@, "source_commit"@, ctx.kernel_sha@)
            &&& tells(m, "kernel"@, "version_string"@, version)
            &&& m.contains(("image"@, FieldModel::Text(image)))
            &&& m.contains(("patch_rejects"@, FieldModel::Unsigned(rejects)))
            &&& m.contains(
                ("source_date_epoch"@, FieldModel::Signed(ctx.source_date_epoch as int)),
            )
        }),
{
    let m = metadata_fields(ctx, image, rejects, version, susfs);
    lemma_tells(m, 1, 0);
    lemma_tells(m, 1, 1);
    lemma_tells(m, 1, 2);
    lemma_tells(m, 1, 3);
    lemma_tells(m, 2, 0);
    lemma_tells(m, 2, 1);
    lemma_tells(m, 2, 2);
    lemma_tells(m, 3, 0);
    lemma_tells(m, 3, 1);
    lemma_tells(m, 4, 0);
    lemma_tells(m, 4, 1);
    lemma_tells(m, 4, 2);
    lemma_tells(m, 4, 3);
    lemma_tells(m, 4, 4);
    lemma_tells(m, 4, 5);
    lemma_tells(m, 4, 6);
    lemma_tells(m, 4, 7);
    assert(m[5] == ("image"@, FieldModel::Text(image)));
    assert(m[6] == ("patch_rejects"@, FieldModel::Unsigned(rejects)));
    assert(m[7] == ("source_date_epoch"@, FieldModel::Signed(ctx.source_date_epoch as int)));
}

} // verus!
