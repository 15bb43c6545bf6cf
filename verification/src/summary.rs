//! What is written about a build: the summary, the metadata and the list of families.
use crate::ctx::{common_dir_of, Ctx};
use crate::family::{
    android_of, family_ids, family_list, id_of, kernel_of, susfs_branch_of, Family,
};
use crate::lines::{char_rows, vec_bare_lines};
use crate::paths::{joined_path, path_join};
use crate::plan::{command, command_in, env_model, run_in, run, Command, Step};
use crate::text::{
    bare_lines, chars_of, decimal, find_from, first_at, joined, joined_with, lemma_find_from,
    lemma_first_at, occurs, range_of, signed_decimal, slices, string_of, texts, vec_contains,
    vec_find,
};
use crate::words::{cat2, cat3, cat4, cat5, cat7, decimal_text, signed_text};
use serde_json::Value;
use vstd::prelude::*;
use vstd::string::*;

verus! {

// ---------------------------------------------------------------------------
// The version of SUSFS
// ---------------------------------------------------------------------------

/// What stands between the first two quotes of a line, if it defines the version.
pub open spec fn quoted_version(l: Seq<char>) -> Option<Seq<char>> {
    if !occurs(l, "#define SUSFS_VERSION"@) {
        None
    } else {
        match first_at(l, "\""@) {
            None => None,
            Some(a) => match find_from(l, "\""@, a + 1) {
                None => None,
                Some(b) => Some(l.subrange(a + 1, b)),
            },
        }
    }
}

/// The version in the first line from `i` on that has one.
pub open spec fn version_from(lines: Seq<Seq<char>>, i: int) -> Seq<char>
    decreases lines.len() - i,
{
    if i >= lines.len() {
        "N/A"@
    } else {
        match quoted_version(lines[i]) {
            Some(v) => v,
            None => version_from(lines, i + 1),
        }
    }
}

/// The version of SUSFS that its header names.
pub open spec fn susfs_version_of(header: Option<Seq<char>>) -> Seq<char> {
    match header {
        Some(text) => version_from(bare_lines(text), 0),
        None => "N/A"@,
    }
}

/// What stands between the first two quotes of a line, if it defines the version.
fn read_version(row: &Vec<char>) -> (r: Option<String>)
    ensures
        r is Some <==> quoted_version(row@) is Some,
        r matches Some(v) ==> quoted_version(row@) == Some(v@),
{
    if !vec_contains(row, &chars_of("#define SUSFS_VERSION")) {
        return None;
    }
    let quote = chars_of("\"");
    proof {
        reveal_strlit("\"");
        lemma_first_at(row@, "\""@);
    }
    match vec_find(row, &quote, 0) {
        None => None,
        Some(a) => {
            let n: usize = row.len();
            assert(a < n);
            proof {
                lemma_find_from(row@, "\""@, a + 1);
            }
            match vec_find(row, &quote, a + 1) {
                None => None,
                Some(b) => Some(string_of(&range_of(row, a + 1, b))),
            }
        },
    }
}

/// Where the header is that names the version of SUSFS.
pub open spec fn susfs_header_of(ws: Seq<char>) -> Seq<char> {
    joined_path(common_dir_of(ws), "include/linux/susfs.h"@)
}

/// The header that names the version of SUSFS.
pub fn susfs_header(ctx: &Ctx) -> (r: String)
    ensures
        r@ == joined_path(common_dir_of(ctx.workspace()), "include/linux/susfs.h"@),
        r@ == susfs_header_of(ctx.workspace()),
{
    path_join(&ctx.common_dir(), "include/linux/susfs.h")
}

/// The version of SUSFS that its header names, where the header is there.
pub fn susfs_version(header: Option<&str>) -> (r: String)
    ensures
        r@ == susfs_version_of(
            match header {
                Some(h) => Some(h@),
                None => None,
            },
        ),
{
    let text = match header {
        Some(h) => h,
        None => {
            return "N/A".to_owned();
        },
    };
    let rows = vec_bare_lines(&chars_of(text));
    let ghost lines = bare_lines(text@);
    let mut i: usize = 0;
    while i < rows.len()
        invariant
            i <= rows@.len(),
            lines == bare_lines(text@),
            header matches Some(h) && h@ == text@,
            char_rows(rows@) == lines,
            version_from(lines, 0) == version_from(lines, i as int),
        decreases rows@.len() - i,
    {
        assert(lines[i as int] == rows@[i as int]@);
        match read_version(&rows[i]) {
            Some(v) => {
                return v;
            },
            None => {},
        }
        i += 1;
    }
    "N/A".to_owned()
}

// ---------------------------------------------------------------------------
// The summary
// ---------------------------------------------------------------------------

/// The command that reads the version out of an image.
pub open spec fn version_command_words(image: Seq<char>) -> Seq<Seq<char>> {
    seq![
        "sh"@,
        "-c"@,
        "strings "@ + image
            + " | grep -m1 '^Linux version ' | sed 's/Linux version //' || true"@,
    ]
}

/// The command that reads the version out of an image.
pub fn version_command(ctx: &Ctx, image: &str) -> (r: Command)
    ensures
        r@ == command_in(ctx.opts.output_dir@, version_command_words(image@)),
{
    let script = cat3(
        "strings ",
        image,
        " | grep -m1 '^Linux version ' | sed 's/Linux version //' || true",
    );
    let words = vec!["sh", "-c", script.as_str()];
    assert(slices(words@) =~= version_command_words(image@));
    command(&ctx.opts.output_dir, words)
}

/// One row of the table.
pub open spec fn table_row(name: Seq<char>, value: Seq<char>) -> Seq<char> {
    "| **"@ + name + "** | "@ + value + " |\n"@
}

/// The release, as the summary shows it.
pub open spec fn release_text(ctx: Ctx) -> Seq<char> {
    kernel_of(ctx.family) + "."@ + ctx.sublevel@ + "-"@ + android_of(ctx.family) + "-"@
        + ctx.os_patch_level@
}

/// The head of the summary.
pub open spec fn summary_head(ctx: Ctx) -> Seq<char> {
    "## "@ + android_of(ctx.family) + " "@ + kernel_of(ctx.family) + " ("@ + ctx.sublevel@ + ") - "@
        + ctx.opts.variant@ + " release\n\n"@ + "| Metric | Value |\n|--------|-------|\n"@
}

/// The rows up to the one with the version string, which is there only where the
/// version is known.
pub open spec fn summary_first_rows(ctx: Ctx, version: Seq<char>) -> Seq<char> {
    let rows = table_row("Status"@, "[+] Success"@) + table_row("Kernel"@, release_text(ctx));
    if version.len() == 0 {
        rows
    } else {
        rows + table_row("Version String"@, "`"@ + version + "`"@)
    }
}

/// The other rows.
pub open spec fn summary_other_rows(
    ctx: Ctx,
    image: Seq<char>,
    rejects: nat,
    susfs: Seq<char>,
) -> Seq<char> {
    table_row("Root Implementation"@, "KernelSU-Next"@) + table_row("Root Commit"@, ctx.root_sha@)
        + table_row("Root Remote"@, ctx.root_repo@) + table_row("SUSFS Version"@, susfs)
        + table_row("SUSFS Commit"@, ctx.susfs_sha@) + table_row(
        "DroidSpaces (LXC) Commit"@,
        ctx.droidspaces_sha@,
    ) + table_row("Kernel Source Commit"@, ctx.kernel_sha@) + table_row(
        "Feature Set"@,
        "SUSFS+DS+KernelSU-Next"@,
    ) + table_row("Patch Rejects"@, decimal(rejects)) + table_row(
        "SOURCE_DATE_EPOCH"@,
        signed_decimal(ctx.source_date_epoch as int),
    ) + table_row("Image"@, image)
}

/// The line for a note.
pub open spec fn note_line(note: Seq<char>) -> Seq<char> {
    "- "@ + note + "\n"@
}

/// The list of notes, where there are any.
pub open spec fn summary_notes(notes: Seq<Seq<char>>) -> Seq<char> {
    if notes.len() == 0 {
        seq![]
    } else {
        "\n### Applied Fixes\n\n"@ + joined(notes.map_values(|n: Seq<char>| note_line(n)))
    }
}

/// The summary of a build.
pub open spec fn summary_text(
    ctx: Ctx,
    image: Seq<char>,
    rejects: nat,
    version: Seq<char>,
    susfs: Seq<char>,
) -> Seq<char> {
    summary_head(ctx) + summary_first_rows(ctx, version) + summary_other_rows(
        ctx,
        image,
        rejects,
        susfs,
    ) + summary_notes(texts(ctx.notes@))
}

/// One row of the table.
fn row(name: &str, value: &str) -> (r: String)
    ensures
        r@ == table_row(name@, value@),
{
    cat5("| **", name, "** | ", value, " |\n")
}

/// The head of the summary.
fn head_text(ctx: &Ctx) -> (r: String)
    ensures
        r@ == summary_head(*ctx),
{
    let a = cat7(
        "## ",
        ctx.family.android(),
        " ",
        ctx.family.kernel(),
        " (",
        &ctx.sublevel,
        ") - ",
    );
    cat4(&a, &ctx.opts.variant, " release\n\n", "| Metric | Value |\n|--------|-------|\n")
}

/// The rows up to the one with the version string.
fn first_rows(ctx: &Ctx, version: &str) -> (r: String)
    ensures
        r@ == summary_first_rows(*ctx, version@),
{
    let release = cat7(
        ctx.family.kernel(),
        ".",
        &ctx.sublevel,
        "-",
        ctx.family.android(),
        "-",
        &ctx.os_patch_level,
    );
    let mut r = cat2(&row("Status", "[+] Success"), &row("Kernel", &release));
    if chars_of(version).len() > 0 {
        r.append(&row("Version String", &cat3("`", version, "`")));
    }
    r
}

/// The other rows.
fn other_rows(ctx: &Ctx, image: &str, rejects: u64, susfs: &str) -> (r: String)
    ensures
        r@ == summary_other_rows(*ctx, image@, rejects as nat, susfs@),
{
    let mut r = row("Root Implementation", "KernelSU-Next");
    r.append(&row("Root Commit", &ctx.root_sha));
    r.append(&row("Root Remote", &ctx.root_repo));
    r.append(&row("SUSFS Version", susfs));
    r.append(&row("SUSFS Commit", &ctx.susfs_sha));
    r.append(&row("DroidSpaces (LXC) Commit", &ctx.droidspaces_sha));
    r.append(&row("Kernel Source Commit", &ctx.kernel_sha));
    r.append(&row("Feature Set", "SUSFS+DS+KernelSU-Next"));
    r.append(&row("Patch Rejects", &decimal_text(rejects)));
    r.append(&row("SOURCE_DATE_EPOCH", &signed_text(ctx.source_date_epoch)));
    r.append(&row("Image", image));
    r
}

/// The list of notes.
fn notes_text(notes: &Vec<String>) -> (r: String)
    ensures
        r@ == summary_notes(texts(notes@)),
{
    if notes.len() == 0 {
        let none = String::new();
        assert(none@ =~= summary_notes(texts(notes@)));
        return none;
    }
    let ghost want = texts(notes@).map_values(|n: Seq<char>| note_line(n));
    let mut list = String::new();
    let mut i: usize = 0;
    assert(list@ =~= joined(want.take(0)));
    while i < notes.len()
        invariant
            i <= notes@.len(),
            want == texts(notes@).map_values(|n: Seq<char>| note_line(n)),
            list@ == joined(want.take(i as int)),
        decreases notes@.len() - i,
    {
        let line = cat3("- ", &notes[i], "\n");
        list.append(&line);
        assert(want.take(i + 1).drop_last() =~= want.take(i as int));
        assert(want.take(i + 1).last() == line@);
        i += 1;
    }
    assert(want.take(want.len() as int) =~= want);
    cat2("\n### Applied Fixes\n\n", &list)
}

/// The summary of a build. `version` is what the image says of itself, where that is
/// known, and `susfs` the version of SUSFS.
pub fn write_summary(ctx: &Ctx, image: &str, rejects: u64, version: &str, susfs: &str) -> (r: String)
    ensures
        r@ == summary_text(*ctx, image@, rejects as nat, version@, susfs@),
{
    cat4(
        &head_text(ctx),
        &first_rows(ctx, version),
        &other_rows(ctx, image, rejects, susfs),
        &notes_text(&ctx.notes),
    )
}

/// Where the summary is written.
pub fn summary_path(ctx: &Ctx) -> (r: String)
    ensures
        r@ == joined_path(
            ctx.opts.output_dir@,
            "build-summary-"@ + ctx.file_name@ + ".md"@,
        ),
{
    path_join(&ctx.opts.output_dir, &cat3("build-summary-", &ctx.file_name, ".md"))
}

/// Where the metadata is written.
pub fn metadata_path(ctx: &Ctx) -> (r: String)
    ensures
        r@ == joined_path(ctx.opts.output_dir@, ctx.file_name@ + "-metadata.json"@),
{
    path_join(&ctx.opts.output_dir, &cat2(&ctx.file_name, "-metadata.json"))
}

/// The step that packs the flashable archive.
pub fn zip_step(ctx: &Ctx) -> (r: Step)
    ensures
        r@ == run_in(
            joined_path(ctx.workspace(), "AnyKernel3"@),
            seq![
                "zip"@,
                "-qr"@,
                joined_path(ctx.opts.output_dir@, ctx.file_name@ + "-AnyKernel3.zip"@),
                "."@,
            ],
        ),
{
    let zip = path_join(&ctx.opts.output_dir, &cat2(&ctx.file_name, "-AnyKernel3.zip"));
    let words = vec!["zip", "-qr", zip.as_str(), "."];
    assert(slices(words@) =~= seq!["zip"@, "-qr"@, zip@, "."@]);
    run(&ctx.any_kernel3(), words)
}

// ---------------------------------------------------------------------------
// JSON
// ---------------------------------------------------------------------------

/// A value of the metadata.
#[derive(Debug)]
pub enum Field {
    Text(String),
    Signed(i64),
    Unsigned(u64),
    Texts(Vec<(String, String)>),
}

/// The model of a value.
#[verifier::ext_equal]
pub enum FieldModel {
    Text(Seq<char>),
    Signed(int),
    Unsigned(int),
    Texts(Seq<(Seq<char>, Seq<char>)>),
}

impl View for Field {
    type V = FieldModel;

    open spec fn view(&self) -> FieldModel {
        match self {
            Field::Text(s) => FieldModel::Text(s@),
            Field::Signed(n) => FieldModel::Signed(*n as int),
            Field::Unsigned(n) => FieldModel::Unsigned(*n as int),
            Field::Texts(v) => FieldModel::Texts(env_model(v@)),
        }
    }
}

/// The models of named values.
pub open spec fn field_models(v: Seq<(String, Field)>) -> Seq<(Seq<char>, FieldModel)> {
    v.map_values(|p: (String, Field)| (p.0@, p.1@))
}

/// The error of a value that has no JSON text.
#[verifier::external_type_specification]
#[verifier::external_body]
pub struct ExJsonError(serde_json::Error);

/// What `serde_json::to_string_pretty` gives back for an object with these members.
pub uninterp spec fn json_pretty(fields: Seq<(Seq<char>, FieldModel)>) -> Seq<char>;

/// Turns the members into a `serde_json::Value` and calls
/// `serde_json::to_string_pretty`. Claimed: an object of texts, numbers and objects of
/// texts always has a text, which depends on the members alone.
#[verifier::external_body]
pub(crate) fn to_string_pretty(fields: &Vec<(String, Field)>) -> (r: Result<
    String,
    serde_json::Error,
>)
    ensures
        r is Ok,
        r matches Ok(s) ==> s@ == json_pretty(field_models(fields@)),
{
    let text = |p: &(String, String)| (p.0.clone(), Value::String(p.1.clone()));
    let value = |f: &Field| match f {
        Field::Text(s) => Value::String(s.clone()),
        Field::Signed(n) => Value::from(*n),
        Field::Unsigned(n) => Value::from(*n),
        Field::Texts(v) => Value::Object(v.iter().map(text).collect()),
    };
    let members = fields.iter().map(|p| (p.0.clone(), value(&p.1))).collect();
    serde_json::to_string_pretty(&Value::Object(members))
}

/// The hexadecimal digit of a number below sixteen.
pub open spec fn hex_char(n: nat) -> char {
    if n < 10 {
        ('0' as nat + n) as char
    } else {
        ('a' as nat + n - 10) as char
    }
}

/// `c` as JSON writes it in a text.
pub open spec fn json_char(c: char) -> Seq<char> {
    if c == '"' || c == '\\' {
        seq!['\\', c]
    } else if c == '\u{8}' {
        seq!['\\', 'b']
    } else if c == '\t' {
        seq!['\\', 't']
    } else if c == '\n' {
        seq!['\\', 'n']
    } else if c == '\u{c}' {
        seq!['\\', 'f']
    } else if c == '\r' {
        seq!['\\', 'r']
    } else if c <= '\u{1f}' {
        seq!['\\', 'u', '0', '0', hex_char(c as nat / 16), hex_char(c as nat % 16)]
    } else {
        seq![c]
    }
}

/// `s` as a text in JSON.
pub open spec fn json_text(s: Seq<char>) -> Seq<char> {
    "\""@ + joined(s.map_values(|c: char| json_char(c))) + "\""@
}

/// Calls `serde_json::to_string` on a list of texts. Claimed: it always has a text, which
/// is the texts in quotes, with commas between them, in square brackets. In a text a quote
/// and a backslash stand behind a backslash, and a control character is written by its
/// letter where it has one, else by its number in four hexadecimal digits.
#[verifier::external_body]
pub(crate) fn to_json_array(ids: &Vec<String>) -> (r: Result<String, serde_json::Error>)
    ensures
        r is Ok,
        r matches Ok(s) ==> s@ == "["@ + joined_with(
            texts(ids@).map_values(|t: Seq<char>| json_text(t)),
            ","@,
        ) + "]"@,
{
    serde_json::to_string(ids)
}

/// `s` needs no escapes in JSON.
pub open spec fn is_plain_json(s: Seq<char>) -> bool {
    forall|i: int| 0 <= i < s.len() ==> s[i] >= ' ' && s[i] != '"' && s[i] != '\\'
}

/// `s` in quotes.
pub open spec fn quoted(s: Seq<char>) -> Seq<char> {
    "\""@ + s + "\""@
}

/// A text that needs no escapes is written as it is.
proof fn lemma_plain_json(s: Seq<char>)
    requires
        is_plain_json(s),
    ensures
        joined(s.map_values(|c: char| json_char(c))) == s,
    decreases s.len(),
{
    let f = |c: char| json_char(c);
    if s.len() == 0 {
        assert(joined(s.map_values(f)) =~= s);
    } else {
        lemma_plain_json(s.drop_last());
        assert(s.map_values(f).drop_last() =~= s.drop_last().map_values(f));
        assert(s.last() == s[s.len() - 1]);
        assert(s.map_values(f).last() == seq![s.last()]);
        assert(joined(s.map_values(f)) =~= s);
    }
}

/// The members of the metadata.
pub open spec fn metadata_fields(
    ctx: Ctx,
    image: Seq<char>,
    rejects: int,
    version: Seq<char>,
    susfs: Seq<char>,
) -> Seq<(Seq<char>, FieldModel)> {
    seq![
        (
            "method"@,
            FieldModel::Text(
                "GKI source build with SHA-pinned KernelSU-Next, SUSFS and DroidSpaces (LXC)"@,
            ),
        ),
        (
            "root"@,
            FieldModel::Texts(
                seq![
                    ("implementation"@, "KernelSU-Next"@),
                    ("manager"@, "KernelSU Next Manager"@),
                    ("commit"@, ctx.root_sha@),
                    ("remote"@, ctx.root_repo@),
                ],
            ),
        ),
        (
            "susfs"@,
            FieldModel::Texts(
                seq![
                    ("branch"@, susfs_branch_of(ctx.family)),
                    ("commit"@, ctx.susfs_sha@),
                    ("version"@, susfs),
                ],
            ),
        ),
        (
            "lxc"@,
            FieldModel::Texts(
                seq![("project"@, "Droidspaces-OSS"@), ("commit"@, ctx.droidspaces_sha@)],
            ),
        ),
        (
            "kernel"@,
            FieldModel::Texts(
                seq![
                    ("family"@, id_of(ctx.family)),
                    ("android"@, android_of(ctx.family)),
                    ("kernel_version"@, kernel_of(ctx.family)),
                    ("sublevel"@, ctx.sublevel@),
                    ("os_patch_level"@, ctx.os_patch_level@),
                    ("variant"@, ctx.opts.variant@),
                    ("source_commit"@, ctx.kernel_sha@),
                    ("version_string"@, version),
                ],
            ),
        ),
        ("image"@, FieldModel::Text(image)),
        ("patch_rejects"@, FieldModel::Unsigned(rejects)),
        ("source_date_epoch"@, FieldModel::Signed(ctx.source_date_epoch as int)),
    ]
}

/// One text with its name.
fn named(name: &str, text: &str) -> (r: (String, String))
    ensures
        (r.0@, r.1@) == (name@, text@),
{
    (name.to_owned(), text.to_owned())
}

/// The members of the metadata.
pub fn metadata(ctx: &Ctx, image: &str, rejects: u64, version: &str, susfs: &str) -> (r: Vec<
    (String, Field),
>)
    ensures
        field_models(r@) == metadata_fields(*ctx, image@, rejects as int, version@, susfs@),
{
    let branch = ctx.family.susfs_branch();
    let root = vec![
        named("implementation", "KernelSU-Next"),
        named("manager", "KernelSU Next Manager"),
        named("commit", &ctx.root_sha),
        named("remote", &ctx.root_repo),
    ];
    let ghost want = metadata_fields(*ctx, image@, rejects as int, version@, susfs@);
    assert(env_model(root@) =~= want[1].1->Texts_0);
    let hiding = vec![
        named("branch", &branch),
        named("commit", &ctx.susfs_sha),
        named("version", susfs),
    ];
    assert(env_model(hiding@) =~= want[2].1->Texts_0);
    let lxc = vec![named("project", "Droidspaces-OSS"), named("commit", &ctx.droidspaces_sha)];
    assert(env_model(lxc@) =~= want[3].1->Texts_0);
    let kernel = vec![
        named("family", ctx.family.id()),
        named("android", ctx.family.android()),
        named("kernel_version", ctx.family.kernel()),
        named("sublevel", &ctx.sublevel),
        named("os_patch_level", &ctx.os_patch_level),
        named("variant", &ctx.opts.variant),
        named("source_commit", &ctx.kernel_sha),
        named("version_string", version),
    ];
    assert(env_model(kernel@) =~= want[4].1->Texts_0);
    let r = vec![
        (
            "method".to_owned(),
            Field::Text(
                "GKI source build with SHA-pinned KernelSU-Next, SUSFS and DroidSpaces (LXC)".to_owned(),
            ),
        ),
        ("root".to_owned(), Field::Texts(root)),
        ("susfs".to_owned(), Field::Texts(hiding)),
        ("lxc".to_owned(), Field::Texts(lxc)),
        ("kernel".to_owned(), Field::Texts(kernel)),
        ("image".to_owned(), Field::Text(image.to_owned())),
        ("patch_rejects".to_owned(), Field::Unsigned(rejects)),
        ("source_date_epoch".to_owned(), Field::Signed(ctx.source_date_epoch)),
    ];
    assert(field_models(r@) =~= want);
    r
}

/// The metadata of a build, as JSON.
pub fn metadata_json(ctx: &Ctx, image: &str, rejects: u64, version: &str, susfs: &str) -> (r: String)
    ensures
        r@ == json_pretty(metadata_fields(*ctx, image@, rejects as int, version@, susfs@)),
{
    match to_string_pretty(&metadata(ctx, image, rejects, version, susfs)) {
        Ok(s) => s,
        Err(_) => String::new(),
    }
}

/// The list of families, as JSON.
pub open spec fn families_json_text() -> Seq<char> {
    "["@ + joined_with(
        family_list().map_values(|f: Family| id_of(f)).map_values(|t: Seq<char>| quoted(t)),
        ","@,
    ) + "]"@
}

/// No identifier needs an escape.
proof fn lemma_ids_are_plain(f: Family)
    ensures
        is_plain_json(id_of(f)),
{
    reveal_strlit("android12-5.10");
    reveal_strlit("android13-5.10");
    reveal_strlit("android13-5.15");
    reveal_strlit("android14-5.15");
    reveal_strlit("android14-6.1");
    reveal_strlit("android15-6.6");
    reveal_strlit("android16-6.12");
}

/// The list of families, as JSON.
pub fn families_json() -> (r: String)
    ensures
        r@ == families_json_text(),
{
    let ids = family_ids();
    proof {
        assert(texts(ids@).len() == family_list().len());
        assert forall|i: int| 0 <= i < ids@.len() implies json_text(#[trigger] texts(ids@)[i])
            == quoted(texts(ids@)[i]) by {
            lemma_ids_are_plain(family_list()[i]);
            lemma_plain_json(texts(ids@)[i]);
        }
        assert(texts(ids@).map_values(|t: Seq<char>| json_text(t)) =~= texts(ids@).map_values(
            |t: Seq<char>| quoted(t),
        ));
    }
    match to_json_array(&ids) {
        Ok(s) => s,
        Err(_) => String::new(),
    }
}

} // verus!
