//! Bringing the repository up to date before the backend is started.
use vstd::prelude::*;

use crate::json::{parse_yaml, str_view, yaml_document, Json};
use crate::patch::PatchOutcome;
use crate::platform::{join_path, joined_path, path_view, OsPath, OsPathView, Platform};
use crate::text;

verus! {

/// The directory beside the programs of an application bundle, where a repository may be.
pub open spec fn bundle_parts(exe_parts: Seq<Seq<char>>, platform: Platform) -> Option<
    Seq<Seq<char>>,
> {
    if platform == Platform::Mac && exe_parts.len() > 0 && exe_parts.last() == "MacOS"@ {
        Some(exe_parts.drop_last().push("AzurLaneAutoScript"@))
    } else {
        None
    }
}

/// The text of a path with these components.
pub open spec fn slashed(parts: Seq<Seq<char>>) -> Seq<char> {
    if parts.len() > 0 && parts[0] == seq!['/'] {
        "/"@ + text::joined(parts.skip(1), "/"@)
    } else {
        text::joined(parts, "/"@)
    }
}

/// The directory beside the programs of an application bundle, where a repository may be, if the
/// launcher lies in such a bundle.
pub fn bundle_repo_dir(exe_folder: &OsPath, platform: Platform) -> (r: Option<OsPath>)
    ensures
        match (r, bundle_parts(exe_folder@.parts, platform)) {
            (Some(p), Some(parts)) => p@ == (OsPathView { text: slashed(parts), parts }),
            (None, None) => true,
            _ => false,
        },
{
    let n: usize = exe_folder.parts.len();
    if platform != Platform::Mac || n == 0 {
        return None;
    }
    assert(exe_folder@.parts.last() == exe_folder.parts@[n - 1]@);
    if !text::same(exe_folder.parts[n - 1].as_str(), "MacOS") {
        return None;
    }
    let ghost want = bundle_parts(exe_folder@.parts, platform)->0;
    let mut parts = text::copy_texts(&exe_folder.parts);
    assert(text::texts(parts@).len() == parts@.len());
    let ghost all = parts@;
    parts.pop();
    assert(text::texts(parts@) =~= exe_folder@.parts.drop_last()) by {
        assert forall|i: int| 0 <= i < parts@.len() implies text::texts(parts@)[i]
            == exe_folder@.parts.drop_last()[i] by {
            assert(text::texts(all)[i] == all[i]@);
        }
    }
    let ghost front = parts@;
    let name = String::from_str("AzurLaneAutoScript");
    parts.push(name);
    assert(text::texts(parts@) =~= text::texts(front).push(name@));
    assert(text::texts(parts@) == want);
    let absolute = parts[0].as_str().unicode_len() == 1 && parts[0].as_str().get_char(0) == '/';
    proof {
        assert(want[0] == parts@[0]@);
        if absolute {
            assert(want[0] =~= seq!['/']);
        }
    }
    let mut t = String::new();
    let mut names: Vec<String> = Vec::new();
    let mut i: usize = 0;
    if absolute {
        t = String::from_str("/");
        i = 1;
    }
    let ghost skipped = i as int;
    while i < parts.len()
        invariant
            skipped <= i <= parts@.len(),
            0 <= skipped <= 1,
            names@.len() == i - skipped,
            forall|j: int| 0 <= j < names@.len() ==> (#[trigger] names@[j])@ == parts@[j + skipped]@,
        decreases parts@.len() - i,
    {
        names.push(parts[i].clone());
        i = i + 1;
    }
    assert(text::texts(names@) =~= want.skip(skipped)) by {
        assert forall|j: int| 0 <= j < names@.len() implies text::texts(names@)[j] == want.skip(
            skipped,
        )[j] by {
            assert(want[j + skipped] == parts@[j + skipped]@);
        }
    }
    assert(want.skip(0) =~= want);
    let rest = text::join(&names, "/");
    let ghost head = t@;
    t.append(rest.as_str());
    proof {
        if !absolute {
            assert(head + rest@ =~= rest@);
        }
    }
    Some(OsPath { text: t, parts })
}

/// Where the repository is: the directory of the launcher, if the installer lies there, else that
/// beside the programs of an application bundle, if it is there.
pub fn try_alas_repo_dir(
    exe_folder: OsPath,
    has_installer: bool,
    bundle: Option<OsPath>,
    bundle_exists: bool,
) -> (r: Option<OsPath>)
    ensures
        path_view(r) == (if has_installer {
            Some(exe_folder@)
        } else if bundle_exists {
            path_view(bundle)
        } else {
            None
        }),
{
    if has_installer {
        Some(exe_folder)
    } else if bundle_exists {
        bundle
    } else {
        None
    }
}

/// The directories with the programs of the repository, those of its toolkit first.
pub open spec fn program_dirs(dir: Seq<char>, platform: Platform) -> Seq<Seq<char>> {
    let toolkit = joined_path(dir, "toolkit"@, platform);
    let venv = joined_path(dir, ".venv"@, platform);
    if platform == Platform::Windows {
        seq![
            joined_path(joined_path(toolkit, "git"@, platform), "cmd"@, platform),
            joined_path(toolkit, "Scripts"@, platform),
            toolkit,
            joined_path(venv, "Scripts"@, platform),
        ]
    } else {
        seq![
            joined_path(joined_path(toolkit, "libexec"@, platform), "git-core"@, platform),
            joined_path(toolkit, "bin"@, platform),
            joined_path(venv, "bin"@, platform),
        ]
    }
}

/// The directories with the programs of the repository, those of its toolkit first.
pub fn payload_path_prepend(dir: &str, platform: Platform) -> (r: Vec<String>)
    ensures
        text::texts(r@) == program_dirs(dir@, platform),
{
    let toolkit = join_path(dir, "toolkit", platform);
    let venv = join_path(dir, ".venv", platform);
    let mut r: Vec<String> = Vec::new();
    if platform == Platform::Windows {
        let git = join_path(toolkit.as_str(), "git", platform);
        r.push(join_path(git.as_str(), "cmd", platform));
        r.push(join_path(toolkit.as_str(), "Scripts", platform));
        r.push(toolkit);
        r.push(join_path(venv.as_str(), "Scripts", platform));
    } else {
        let libexec = join_path(toolkit.as_str(), "libexec", platform);
        r.push(join_path(libexec.as_str(), "git-core", platform));
        r.push(join_path(toolkit.as_str(), "bin", platform));
        r.push(join_path(venv.as_str(), "bin", platform));
    }
    assert(text::texts(r@) =~= program_dirs(dir@, platform));
    r
}

/// The directories with the libraries of the repository; on Windows there is no path for them.
pub open spec fn library_dirs(dir: Seq<char>, platform: Platform) -> Seq<Seq<char>> {
    if platform == Platform::Windows {
        Seq::empty()
    } else {
        seq![joined_path(joined_path(dir, "toolkit"@, platform), "lib"@, platform)]
    }
}

/// The directories with the libraries of the repository.
pub fn library_path_prepend(dir: &str, platform: Platform) -> (r: Vec<String>)
    ensures
        text::texts(r@) == library_dirs(dir@, platform),
{
    let mut r: Vec<String> = Vec::new();
    if platform != Platform::Windows {
        let toolkit = join_path(dir, "toolkit", platform);
        r.push(join_path(toolkit.as_str(), "lib", platform));
    }
    assert(text::texts(r@) =~= library_dirs(dir@, platform));
    r
}

/// A search path with more directories before those that it has, in their order.
pub fn search_path(entries: &Vec<String>, before: &Vec<String>) -> (r: Vec<String>)
    ensures
        text::texts(r@) == text::texts(entries@) + text::texts(before@),
{
    let mut r = text::copy_texts(entries);
    let ghost head = r@;
    let mut i: usize = 0;
    assert(text::texts(before@).take(0) =~= Seq::<Seq<char>>::empty());
    assert(text::texts(head) + text::texts(before@).take(0) =~= text::texts(head));
    while i < before.len()
        invariant
            i <= before@.len(),
            text::texts(r@) == text::texts(head) + text::texts(before@).take(i as int),
        decreases before@.len() - i,
    {
        let ghost done = r@;
        r.push(before[i].clone());
        proof {
            let all = text::texts(before@);
            assert(all[i as int] == before@[i as int]@);
            assert(all.take(i + 1) =~= all.take(i as int).push(all[i as int]));
            assert(text::texts(r@) =~= text::texts(done).push(all[i as int]));
            assert((text::texts(head) + all.take(i as int)).push(all[i as int]) =~= text::texts(head)
                + all.take(i + 1));
        }
        i = i + 1;
    }
    assert(text::texts(before@).take(before@.len() as int) =~= text::texts(before@));
    r
}

/// What the launcher puts into its environment, so that the programs of the repository are found.
#[derive(Debug)]
pub struct Environment {
    /// The search path for programs.
    pub path: Vec<String>,
    /// The search path for libraries, where there is one to be set.
    pub library_path: Option<Vec<String>>,
}

/// The environment for the repository in `dir`, from the search paths of before: its programs come
/// before all others, those of its toolkit first; and so do its libraries, except on Windows, where
/// the path for them is left alone.
pub fn setup_environment(
    dir: &str,
    platform: Platform,
    path: &Vec<String>,
    library_path: &Vec<String>,
) -> (r: Environment)
    ensures
        text::texts(r.path@) == program_dirs(dir@, platform) + text::texts(path@),
        match r.library_path {
            Some(l) => platform != Platform::Windows && text::texts(l@) == library_dirs(
                dir@,
                platform,
            ) + text::texts(library_path@),
            None => platform == Platform::Windows,
        },
{
    let programs = payload_path_prepend(dir, platform);
    let libraries = library_path_prepend(dir, platform);
    let found = search_path(&programs, path);
    if platform == Platform::Windows {
        return Environment { path: found, library_path: None };
    }
    Environment { path: found, library_path: Some(search_path(&libraries, library_path)) }
}

/// The parts of the repository that are checked out: everything, less the dead shells. A later
/// pattern overrules an earlier one.
pub open spec fn checkout_patterns() -> Seq<Seq<char>> {
    seq!["/*"@, "!webapp/"@, "!webapp-tauri/src-tauri/"@]
}

/// The texts of a list of string slices.
pub open spec fn slices(v: Seq<&'static str>) -> Seq<Seq<char>> {
    v.map_values(|s: &'static str| s@)
}

/// The parts of the repository that are checked out.
pub fn sparse_checkout_patterns() -> (r: Vec<&'static str>)
    ensures
        slices(r@) == checkout_patterns(),
{
    let mut r: Vec<&'static str> = Vec::new();
    r.push("/*");
    r.push("!webapp/");
    r.push("!webapp-tauri/src-tauri/");
    assert(slices(r@) =~= checkout_patterns());
    r
}

/// The arguments of the program that limits what is checked out.
pub fn sparse_checkout_args() -> (r: Vec<&'static str>)
    ensures
        slices(r@) == seq!["sparse-checkout"@, "set"@, "--no-cone"@] + checkout_patterns(),
{
    let mut r: Vec<&'static str> = Vec::new();
    r.push("sparse-checkout");
    r.push("set");
    r.push("--no-cone");
    let patterns = sparse_checkout_patterns();
    let mut i: usize = 0;
    let ghost head = seq!["sparse-checkout"@, "set"@, "--no-cone"@];
    assert(slices(r@) =~= head);
    assert(head + slices(patterns@).take(0) =~= head);
    while i < patterns.len()
        invariant
            i <= patterns@.len(),
            slices(r@) == head + slices(patterns@).take(i as int),
        decreases patterns@.len() - i,
    {
        let ghost done = r@;
        r.push(patterns[i]);
        proof {
            let all = slices(patterns@);
            assert(all[i as int] == patterns@[i as int]@);
            assert(all.take(i + 1) =~= all.take(i as int).push(all[i as int]));
            assert(slices(r@) =~= slices(done).push(all[i as int]));
            assert((head + all.take(i as int)).push(all[i as int]) =~= head + all.take(i + 1));
        }
        i = i + 1;
    }
    assert(slices(patterns@).take(patterns@.len() as int) =~= slices(patterns@));
    r
}

/// What was done to set the repository up.
#[derive(Clone, Copy, Debug, PartialEq, Eq, Structural)]
pub enum SetupEvent {
    Begin,
    CleanedUp { ok: bool },
    Updated { ok: bool },
    Limited,
    /// What became of the patch; none where it failed.
    Patched { outcome: Option<PatchOutcome> },
}

/// What is to be done next to set the repository up.
#[derive(Clone, Copy, Debug, PartialEq, Eq, Structural)]
pub enum SetupAction {
    /// Remove what an interrupted run has left among the settings.
    CleanUp,
    /// Fetch the newest state.
    Update,
    /// Limit what is checked out; this may fail.
    Limit,
    /// Patch the backend.
    Patch,
    Done,
    /// The setup cannot go on.
    Fail,
}

/// What is to be done after something was done.
pub open spec fn setup_action(event: SetupEvent) -> SetupAction {
    match event {
        SetupEvent::Begin => SetupAction::CleanUp,
        SetupEvent::CleanedUp { ok } => if ok {
            SetupAction::Update
        } else {
            SetupAction::Fail
        },
        SetupEvent::Updated { ok } => if ok {
            SetupAction::Limit
        } else {
            SetupAction::Fail
        },
        SetupEvent::Limited => SetupAction::Patch,
        SetupEvent::Patched { .. } => SetupAction::Done,
    }
}

/// The message that is shown after something was done, before what is to be done next.
pub open spec fn setup_message(event: SetupEvent) -> Option<Seq<char>> {
    match event {
        SetupEvent::Begin => Some("Cleaning up config files"@),
        SetupEvent::CleanedUp { ok } => if ok {
            Some("Updating ALAS"@)
        } else {
            None
        },
        SetupEvent::Updated { ok } => if ok {
            Some("Excluding webapp and webapp-tauri/src-tauri (dead shells)"@)
        } else {
            None
        },
        SetupEvent::Limited => Some("Applying control API patch"@),
        SetupEvent::Patched { outcome } => Some(
            match outcome {
                Some(PatchOutcome::Applied) => "Control API patch applied"@,
                Some(PatchOutcome::AlreadyApplied) => "Control API patch already applied"@,
                Some(
                    PatchOutcome::AnchorMismatch,
                ) => "Control API patch skipped (anchor mismatch; degraded mode)"@,
                None => "Control API patch failed (degraded mode)"@,
            },
        ),
    }
}

/// Decides how the repository is set up: a failed cleanup or update ends it; a failed limit or patch
/// does not.
pub fn setup_alas_repo(event: SetupEvent) -> (r: (SetupAction, Option<&'static str>))
    ensures
        r.0 == setup_action(event),
        str_view(r.1) == setup_message(event),
{
    match event {
        SetupEvent::Begin => (SetupAction::CleanUp, Some("Cleaning up config files")),
        SetupEvent::CleanedUp { ok } => {
            if ok {
                (SetupAction::Update, Some("Updating ALAS"))
            } else {
                (SetupAction::Fail, None)
            }
        },
        SetupEvent::Updated { ok } => {
            if ok {
                (
                    SetupAction::Limit,
                    Some("Excluding webapp and webapp-tauri/src-tauri (dead shells)"),
                )
            } else {
                (SetupAction::Fail, None)
            }
        },
        SetupEvent::Limited => (SetupAction::Patch, Some("Applying control API patch")),
        SetupEvent::Patched { outcome } => {
            let message = match outcome {
                Some(PatchOutcome::Applied) => "Control API patch applied",
                Some(PatchOutcome::AlreadyApplied) => "Control API patch already applied",
                Some(
                    PatchOutcome::AnchorMismatch,
                ) => "Control API patch skipped (anchor mismatch; degraded mode)",
                None => "Control API patch failed (degraded mode)",
            };
            (SetupAction::Done, Some(message))
        },
    }
}

/// The configuration of the backend, from the content of its file if there is one.
pub fn get_deploy_config(content: Option<&str>) -> (r: Option<Json>)
    ensures
        match content {
            Some(c) => match r {
                Some(j) => yaml_document(c@) == Some(j@),
                None => yaml_document(c@) is None,
            },
            None => r is None,
        },
{
    match content {
        Some(c) => parse_yaml(c),
        None => None,
    }
}

/// A launcher lies in an application bundle exactly if it runs on the Mac from a directory called
/// `MacOS`; the repository may then lie beside that directory.
pub proof fn where_a_bundle_has_its_repository(
    exe_parts: Seq<Seq<char>>,
    front: Seq<Seq<char>>,
    platform: Platform,
)
    ensures
        bundle_parts(exe_parts, platform) is Some <==> platform == Platform::Mac && exe_parts.len()
            > 0 && exe_parts.last() == "MacOS"@,
        bundle_parts(front.push("MacOS"@), Platform::Mac) == Some(
            front + seq!["AzurLaneAutoScript"@],
        ),
{
    assert(front.push("MacOS"@).drop_last() =~= front);
    assert(front.push("AzurLaneAutoScript"@) =~= front + seq!["AzurLaneAutoScript"@]);
}

/// Where the programs and libraries of the repository lie, on systems with slashes: the programs of
/// git in the toolkit first, then the others of the toolkit, and then those of the environment.
pub proof fn where_programs_and_libraries_lie(dir: Seq<char>, platform: Platform)
    requires
        platform != Platform::Windows,
        dir.len() > 0,
    ensures
        ({
            let base = crate::platform::slash_parts(dir);
            let programs = program_dirs(dir, platform).map_values(
                |d: Seq<char>| crate::platform::slash_parts(d),
            );
            let libraries = library_dirs(dir, platform).map_values(
                |d: Seq<char>| crate::platform::slash_parts(d),
            );
            &&& programs == seq![
                base + seq!["toolkit"@, "libexec"@, "git-core"@],
                base + seq!["toolkit"@, "bin"@],
                base + seq![".venv"@, "bin"@],
            ]
            &&& libraries == seq![base + seq!["toolkit"@, "lib"@]]
        }),
{
    reveal_strlit("toolkit");
    reveal_strlit("libexec");
    reveal_strlit("git-core");
    reveal_strlit("bin");
    reveal_strlit("lib");
    reveal_strlit(".venv");
    reveal_strlit(".");
    assert("."@.len() == 1 && "toolkit"@.len() == 7 && "libexec"@.len() == 7);
    assert("bin"@.len() == 3 && "lib"@.len() == 3 && "git-core"@.len() == 8 && ".venv"@.len() == 5);
    let base = crate::platform::slash_parts(dir);
    let toolkit = joined_path(dir, "toolkit"@, platform);
    let venv = joined_path(dir, ".venv"@, platform);
    let libexec = joined_path(toolkit, "libexec"@, platform);
    crate::platform::a_joined_name_is_one_component_more(dir, "toolkit"@, platform);
    crate::platform::a_joined_name_is_one_component_more(dir, ".venv"@, platform);
    crate::platform::a_joined_name_is_one_component_more(toolkit, "libexec"@, platform);
    crate::platform::a_joined_name_is_one_component_more(toolkit, "bin"@, platform);
    crate::platform::a_joined_name_is_one_component_more(toolkit, "lib"@, platform);
    crate::platform::a_joined_name_is_one_component_more(venv, "bin"@, platform);
    crate::platform::a_joined_name_is_one_component_more(libexec, "git-core"@, platform);
    assert(base.push("toolkit"@).push("libexec"@).push("git-core"@) =~= base + seq![
        "toolkit"@,
        "libexec"@,
        "git-core"@,
    ]);
    assert(base.push("toolkit"@).push("bin"@) =~= base + seq!["toolkit"@, "bin"@]);
    assert(base.push("toolkit"@).push("lib"@) =~= base + seq!["toolkit"@, "lib"@]);
    assert(base.push(".venv"@).push("bin"@) =~= base + seq![".venv"@, "bin"@]);
    let f = |d: Seq<char>| crate::platform::slash_parts(d);
    let programs = program_dirs(dir, platform).map_values(f);
    assert(programs =~= seq![
        base + seq!["toolkit"@, "libexec"@, "git-core"@],
        base + seq!["toolkit"@, "bin"@],
        base + seq![".venv"@, "bin"@],
    ]);
    assert(library_dirs(dir, platform).map_values(f) =~= seq![base + seq!["toolkit"@, "lib"@]]);
}

/// The same on Windows, where there is no path for libraries.
pub proof fn where_programs_lie_on_windows(dir: Seq<char>)
    requires
        dir.len() > 0,
        dir.last() != '/' && dir.last() != '\\' && dir.last() != ':',
    ensures
        program_dirs(dir, Platform::Windows) == seq![
            dir + "\\toolkit\\git\\cmd"@,
            dir + "\\toolkit\\Scripts"@,
            dir + "\\toolkit"@,
            dir + "\\.venv\\Scripts"@,
        ],
        library_dirs(dir, Platform::Windows).len() == 0,
{
    reveal_strlit("\\");
    reveal_strlit("toolkit");
    reveal_strlit("git");
    reveal_strlit("cmd");
    reveal_strlit("Scripts");
    reveal_strlit(".venv");
    reveal_strlit("\\toolkit\\git\\cmd");
    reveal_strlit("\\toolkit\\Scripts");
    reveal_strlit("\\toolkit");
    reveal_strlit("\\.venv\\Scripts");
    let dirs = program_dirs(dir, Platform::Windows);
    let toolkit = dir + "\\"@ + "toolkit"@;
    let venv = dir + "\\"@ + ".venv"@;
    let git = toolkit + "\\"@ + "git"@;
    assert(toolkit.last() == 't');
    assert(venv.last() == 'v');
    assert(git.last() == 't');
    assert(joined_path(dir, "toolkit"@, Platform::Windows) == toolkit);
    assert(joined_path(dir, ".venv"@, Platform::Windows) == venv);
    assert(joined_path(toolkit, "git"@, Platform::Windows) == git);
    assert(dirs[0] =~= dir + "\\toolkit\\git\\cmd"@);
    assert(dirs[1] =~= dir + "\\toolkit\\Scripts"@);
    assert(dirs[2] =~= dir + "\\toolkit"@);
    assert(dirs[3] =~= dir + "\\.venv\\Scripts"@);
}

/// The steps of the setup follow each other: the cleanup, the update, the limit of what is checked
/// out, and the patch. Only a failed cleanup or update ends it before; what becomes of the patch does
/// not.
pub proof fn the_order_of_the_setup(event: SetupEvent)
    ensures
        setup_action(event) == SetupAction::CleanUp <==> event == SetupEvent::Begin,
        setup_action(event) == SetupAction::Update <==> event == (SetupEvent::CleanedUp {
            ok: true,
        }),
        setup_action(event) == SetupAction::Limit <==> event == (SetupEvent::Updated { ok: true }),
        setup_action(event) == SetupAction::Patch <==> event == SetupEvent::Limited,
        setup_action(event) == SetupAction::Done <==> event is Patched,
        setup_action(event) == SetupAction::Fail <==> event == (SetupEvent::CleanedUp {
            ok: false,
        }) || event == (SetupEvent::Updated { ok: false }),
{
}

/// The text of a path that is made of names is made of these names again, whether it begins at the
/// root or not.
pub proof fn a_path_of_names_is_read_back(names: Seq<Seq<char>>)
    requires
        names.len() > 0,
        forall|i: int|
            0 <= i < names.len() ==> (#[trigger] names[i]).len() > 0 && names[i] != "."@
                && !names[i].contains('/'),
    ensures
        crate::platform::slash_parts(slashed(seq!["/"@] + names)) == seq!["/"@] + names,
        crate::platform::slash_parts(slashed(names)) == names,
{
    reveal_strlit("/");
    assert("/"@ =~= seq!['/']);
    let absolute = seq!["/"@] + names;
    assert(absolute.skip(1) =~= names);
    names_are_read_back(names);
    if names[0] == seq!['/'] {
        assert(names[0][0] == '/');
    }
}

proof fn names_are_read_back(names: Seq<Seq<char>>)
    requires
        names.len() > 0,
        forall|i: int|
            0 <= i < names.len() ==> (#[trigger] names[i]).len() > 0 && names[i] != "."@
                && !names[i].contains('/'),
    ensures
        crate::platform::slash_parts("/"@ + text::joined(names, "/"@)) == seq!["/"@] + names,
        crate::platform::slash_parts(text::joined(names, "/"@)) == names,
        text::joined(names, "/"@).len() > 0,
        text::joined(names, "/"@)[0] != '/',
    decreases names.len(),
{
    reveal_strlit("/");
    reveal_strlit(".");
    assert("/"@ =~= seq!['/']);
    assert("."@ =~= seq!['.']);
    let last = names.last();
    assert(last == names[names.len() - 1]);
    let none = Seq::<char>::empty();
    if names.len() == 1 {
        text::adding_a_last_piece(none, '/', last);
        assert("/"@ + last =~= none + seq!['/'] + last);
        text::cutting_at_a_separator(last, '/', none);
        assert(text::pieces(none, '/') =~= seq![none]);
        let pieces = seq![none].push(last);
        assert(pieces.drop_last() =~= seq![none]);
        assert(seq![none].drop_last() =~= Seq::<Seq<char>>::empty());
        assert(seq![last].drop_last() =~= Seq::<Seq<char>>::empty());
        reveal_with_fuel(crate::platform::named_pieces, 3);
        assert(crate::platform::named_pieces(seq![none]) =~= Seq::<Seq<char>>::empty());
        assert(crate::platform::named_pieces(pieces) =~= seq![last]);
        assert(crate::platform::named_pieces(seq![last]) =~= seq![last]);
        assert(names =~= seq![last]);
        assert(("/"@ + last)[0] == '/');
        if last[0] == '/' {
            assert(last.contains('/'));
        }
    } else {
        let front = names.drop_last();
        assert forall|i: int| 0 <= i < front.len() implies (#[trigger] front[i]).len() > 0
            && front[i] != "."@ && !front[i].contains('/') by {
            assert(front[i] == names[i]);
        }
        names_are_read_back(front);
        let t = text::joined(front, "/"@);
        let whole = text::joined(names, "/"@);
        assert(whole == t + "/"@ + last);
        let base = "/"@ + t;
        assert("/"@ + whole =~= base + seq!['/'] + last);
        text::adding_a_last_piece(base, '/', last);
        text::adding_a_last_piece(t, '/', last);
        text::pieces_nonempty(base, '/');
        text::pieces_nonempty(t, '/');
        let p = text::pieces(base, '/');
        let q = text::pieces(t, '/');
        assert(p.push(last).drop_last() =~= p);
        assert(q.push(last).drop_last() =~= q);
        assert(("/"@ + whole)[0] == '/' && base[0] == '/');
        assert(whole[0] == t[0]);
        let named = crate::platform::named_pieces(p);
        assert(seq![seq!['/']] + named == seq!["/"@] + front);
        assert(seq![seq!['/']] + named.push(last) =~= (seq![seq!['/']] + named).push(last));
        assert((seq!["/"@] + front).push(last) =~= seq!["/"@] + names);
        assert(front.push(last) =~= names);
    }
}

/// The setup says what it is about to do next, and in the end what became of the patch; where it
/// cannot go on it says nothing.
pub proof fn what_the_setup_says(event: SetupEvent)
    ensures
        setup_message(event) is None <==> setup_action(event) == SetupAction::Fail,
        setup_action(event) == SetupAction::CleanUp ==> setup_message(event) == Some(
            "Cleaning up config files"@,
        ),
        setup_action(event) == SetupAction::Update ==> setup_message(event) == Some(
            "Updating ALAS"@,
        ),
        setup_action(event) == SetupAction::Limit ==> setup_message(event) == Some(
            "Excluding webapp and webapp-tauri/src-tauri (dead shells)"@,
        ),
        setup_action(event) == SetupAction::Patch ==> setup_message(event) == Some(
            "Applying control API patch"@,
        ),
        event == (SetupEvent::Patched { outcome: None }) ==> setup_message(event) == Some(
            "Control API patch failed (degraded mode)"@,
        ),
        event == (SetupEvent::Patched { outcome: Some(PatchOutcome::Applied) }) ==> setup_message(
            event,
        ) == Some("Control API patch applied"@),
        event == (SetupEvent::Patched { outcome: Some(PatchOutcome::AlreadyApplied) })
            ==> setup_message(event) == Some("Control API patch already applied"@),
        event == (SetupEvent::Patched { outcome: Some(PatchOutcome::AnchorMismatch) })
            ==> setup_message(event) == Some(
            "Control API patch skipped (anchor mismatch; degraded mode)"@,
        ),
{
}

} // verus!
