//! The settings menu of the launcher, and the check for updates.
use vstd::prelude::*;

use crate::json::{str_view, text_view};
use crate::menu_model::ShellMenuLabels;
use crate::shell_settings::{ShellSettings, ShellSettingsView};
use crate::text;

verus! {

/// How long a program that the check for updates runs may take.
pub const CHECK_UPDATE_TIMEOUT_MS: u64 = 15_000;

/// The languages that can be chosen, in the order of their names in the labels.
pub open spec fn languages() -> Seq<Seq<char>> {
    seq!["zh-CN"@, "zh-TW"@, "en-US"@, "ja-JP"@]
}

/// The languages that can be chosen.
pub const LANGS: [&'static str; 4] = ["zh-CN", "zh-TW", "en-US", "ja-JP"];

/// The language setting after a click: none after a click on the item that follows the backend, the
/// language of the item after a click on that of a language, and the old one after any other.
pub open spec fn language_clicked(current: Option<Seq<char>>, clicked: Seq<char>) -> Option<
    Seq<char>,
> {
    let prefix = "settings-lang-"@;
    if clicked == "settings-lang-follow"@ {
        None
    } else if text::begins(clicked, prefix) {
        Some(clicked.skip(prefix.len() as int))
    } else {
        current
    }
}

/// The language setting after a click on the menu item `clicked`.
pub fn language_after_click(current: Option<String>, clicked: &str) -> (r: Option<String>)
    ensures
        text_view(r) == language_clicked(text_view(current), clicked@),
{
    if text::same(clicked, "settings-lang-follow") {
        return None;
    }
    let prefix = "settings-lang-";
    if text::starts_with(clicked, prefix) {
        let n: usize = clicked.unicode_len();
        let lang = text::slice(clicked, prefix.unicode_len(), n);
        assert(lang@ =~= clicked@.skip(prefix@.len() as int));
        return Some(lang);
    }
    current
}

/// Whether the backend is started with the launcher.
pub fn should_auto_start(settings: &ShellSettings) -> (r: bool)
    ensures
        r == settings@.auto_start_backend,
{
    settings.auto_start_backend
}

/// The settings with the start of the backend switched over.
pub open spec fn auto_start_flipped(s: ShellSettingsView) -> ShellSettingsView {
    ShellSettingsView { auto_start_backend: !s.auto_start_backend, ..s }
}

/// The settings with all notifications switched over.
pub open spec fn notify_master_flipped(s: ShellSettingsView) -> ShellSettingsView {
    ShellSettingsView { notify_enabled: !s.notify_enabled, ..s }
}

/// The settings with the notification of the end of the scheduler switched over.
pub open spec fn notify_death_flipped(s: ShellSettingsView) -> ShellSettingsView {
    ShellSettingsView { notify_scheduler_death: !s.notify_scheduler_death, ..s }
}

/// The settings with the notification of completed tasks switched over.
pub open spec fn notify_task_flipped(s: ShellSettingsView) -> ShellSettingsView {
    ShellSettingsView { notify_task_complete: !s.notify_task_complete, ..s }
}

/// Switches the start of the backend over. Returns the settings that are to be kept.
pub fn handle_auto_start_click(settings: &mut ShellSettings) -> (r: ShellSettings)
    ensures
        final(settings)@ == auto_start_flipped(old(settings)@),
        r@ == final(settings)@,
{
    settings.auto_start_backend = !settings.auto_start_backend;
    settings.clone()
}

/// Switches all notifications over. Returns the settings that are to be kept.
pub fn handle_notify_master_click(settings: &mut ShellSettings) -> (r: ShellSettings)
    ensures
        final(settings)@ == notify_master_flipped(old(settings)@),
        r@ == final(settings)@,
{
    settings.notify_enabled = !settings.notify_enabled;
    settings.clone()
}

/// Switches the notification of the end of the scheduler over. Returns the settings that are to be
/// kept.
pub fn handle_notify_death_click(settings: &mut ShellSettings) -> (r: ShellSettings)
    ensures
        final(settings)@ == notify_death_flipped(old(settings)@),
        r@ == final(settings)@,
{
    settings.notify_scheduler_death = !settings.notify_scheduler_death;
    settings.clone()
}

/// Switches the notification of completed tasks over. Returns the settings that are to be kept.
pub fn handle_notify_task_click(settings: &mut ShellSettings) -> (r: ShellSettings)
    ensures
        final(settings)@ == notify_task_flipped(old(settings)@),
        r@ == final(settings)@,
{
    settings.notify_task_complete = !settings.notify_task_complete;
    settings.clone()
}

/// Two clicks on a switch leave the settings as they were.
pub proof fn switching_twice_changes_nothing(s: ShellSettingsView)
    ensures
        auto_start_flipped(auto_start_flipped(s)) == s,
        notify_master_flipped(notify_master_flipped(s)) == s,
        notify_death_flipped(notify_death_flipped(s)) == s,
        notify_task_flipped(notify_task_flipped(s)) == s,
{
}

/// The language item that is checked: that of the chosen language, or the one that follows the
/// backend where none is chosen or it is not in the menu.
pub open spec fn checked_item(language: Option<Seq<char>>) -> Seq<char> {
    match language {
        Some(l) => if l == "zh-CN"@ {
            "settings-lang-zh-CN"@
        } else if l == "zh-TW"@ {
            "settings-lang-zh-TW"@
        } else if l == "en-US"@ {
            "settings-lang-en-US"@
        } else if l == "ja-JP"@ {
            "settings-lang-ja-JP"@
        } else {
            "settings-lang-follow"@
        },
        None => "settings-lang-follow"@,
    }
}

/// The language item that is checked.
pub fn checked_language_id(language: &Option<String>) -> (r: &'static str)
    ensures
        r@ == checked_item(text_view(*language)),
{
    match language {
        Some(l) => {
            if text::same(l.as_str(), "zh-CN") {
                "settings-lang-zh-CN"
            } else if text::same(l.as_str(), "zh-TW") {
                "settings-lang-zh-TW"
            } else if text::same(l.as_str(), "en-US") {
                "settings-lang-en-US"
            } else if text::same(l.as_str(), "ja-JP") {
                "settings-lang-ja-JP"
            } else {
                "settings-lang-follow"
            }
        },
        None => "settings-lang-follow",
    }
}

/// Takes a click on a language item. Returns the settings that are to be kept.
pub fn handle_language_click(settings: &mut ShellSettings, clicked: &str) -> (r: ShellSettings)
    ensures
        final(settings)@ == (ShellSettingsView {
            language: language_clicked(old(settings)@.language, clicked@),
            ..old(settings)@
        }),
        r@ == final(settings)@,
{
    let current = match &settings.language {
        Some(l) => Some(l.clone()),
        None => None,
    };
    settings.language = language_after_click(current, clicked);
    settings.clone()
}

/// After a click on the item of a language that item is the one that is checked.
pub proof fn clicked_language_is_checked(current: Option<Seq<char>>, k: int)
    requires
        0 <= k < languages().len(),
    ensures
        checked_item(language_clicked(current, "settings-lang-"@ + languages()[k]))
            == "settings-lang-"@ + languages()[k],
        checked_item(language_clicked(current, "settings-lang-follow"@)) == "settings-lang-follow"@,
{
    reveal_strlit("settings-lang-");
    reveal_strlit("settings-lang-follow");
    reveal_strlit("settings-lang-zh-CN");
    reveal_strlit("settings-lang-zh-TW");
    reveal_strlit("settings-lang-en-US");
    reveal_strlit("settings-lang-ja-JP");
    reveal_strlit("zh-CN");
    reveal_strlit("zh-TW");
    reveal_strlit("en-US");
    reveal_strlit("ja-JP");
    let lang = languages()[k];
    let clicked = "settings-lang-"@ + lang;
    assert(clicked[14] == lang[0]);
    assert(clicked.len() == 19 && "settings-lang-follow"@.len() == 20);
    assert(clicked.subrange(0, 14) =~= "settings-lang-"@);
    assert(clicked.skip(14) =~= lang);
    assert("settings-lang-"@ + "zh-CN"@ =~= "settings-lang-zh-CN"@);
    assert("settings-lang-"@ + "zh-TW"@ =~= "settings-lang-zh-TW"@);
    assert("settings-lang-"@ + "en-US"@ =~= "settings-lang-en-US"@);
    assert("settings-lang-"@ + "ja-JP"@ =~= "settings-lang-ja-JP"@);
    assert("zh-TW"@[3] != "zh-CN"@[3]);
    assert("en-US"@[0] != "zh-CN"@[0] && "en-US"@[0] != "zh-TW"@[0]);
    assert("ja-JP"@[0] != "zh-CN"@[0] && "ja-JP"@[0] != "zh-TW"@[0] && "ja-JP"@[0] != "en-US"@[0]);
}

/// What stands before the first suffix that a line ends in.
pub open spec fn before_suffix(line: Seq<char>, a: Seq<char>, b: Seq<char>) -> Option<Seq<char>> {
    match text::stripped_suffix(line, a) {
        Some(t) => Some(t),
        None => text::stripped_suffix(line, b),
    }
}

/// What stands before the suffix of the first line that ends in one of the two.
pub open spec fn first_before(lines: Seq<Seq<char>>, a: Seq<char>, b: Seq<char>) -> Option<Seq<char>>
    decreases lines.len(),
{
    if lines.len() == 0 {
        None
    } else {
        match before_suffix(text::trimmed_end(lines[0]), a, b) {
            Some(t) => Some(t),
            None => first_before(lines.skip(1), a, b),
        }
    }
}

/// The commit on the first line that ends in one of the two.
pub open spec fn commit_of(out: Seq<char>, a: Seq<char>, b: Seq<char>) -> Option<Seq<char>> {
    match first_before(text::lines_of(out), a, b) {
        Some(t) => if text::trimmed(t).len() > 0 {
            Some(text::trimmed(t))
        } else {
            None
        },
        None => None,
    }
}

/// The commit on the first line of `out` that ends in one of the two.
fn find_commit(out: &str, a: &str, b: &str) -> (r: Option<String>)
    ensures
        text_view(r) == commit_of(out@, a@, b@),
{
    let lines = text::lines(out);
    let ghost all = text::texts(lines@);
    let mut i: usize = 0;
    assert(all.skip(0) =~= all);
    while i < lines.len()
        invariant
            i <= lines@.len(),
            all == text::texts(lines@),
            all == text::lines_of(out@),
            first_before(all, a@, b@) == first_before(all.skip(i as int), a@, b@),
        decreases lines@.len() - i,
    {
        proof {
            assert(all[i as int] == lines@[i as int]@);
            assert(all.skip(i as int)[0] == all[i as int]);
            assert(all.skip(i as int).skip(1) =~= all.skip(i + 1));
        }
        let line = text::trim_end(lines[i].as_str());
        let found = match text::strip_suffix(line.as_str(), a) {
            Some(t) => Some(t),
            None => text::strip_suffix(line.as_str(), b),
        };
        if let Some(t) = found {
            let commit = text::trim(t.as_str());
            if commit.as_str().unicode_len() == 0 {
                return None;
            }
            return Some(commit);
        }
        i = i + 1;
    }
    None
}

/// The commit that the output of `git ls-remote` gives for the head of the remote.
pub fn parse_ls_remote(output: &str) -> (r: Option<String>)
    ensures
        text_view(r) == commit_of(output@, "\tHEAD"@, " HEAD"@),
{
    find_commit(output, "\tHEAD", " HEAD")
}

/// The commit that the output of `git ls-remote` gives for a branch.
pub open spec fn branch_commit(out: Seq<char>, branch: Seq<char>) -> Option<Seq<char>> {
    commit_of(out, "\trefs/heads/"@ + branch, "\t"@ + branch)
}

/// The commit that the output of `git ls-remote` gives for a branch.
pub fn parse_ls_remote_branch(output: &str, branch: &str) -> (r: Option<String>)
    ensures
        text_view(r) == branch_commit(output@, branch@),
{
    let full = String::from_str("\trefs/heads/").concat(branch);
    let bare = String::from_str("\t").concat(branch);
    find_commit(output, full.as_str(), bare.as_str())
}

/// Whether the remote has another commit than the one that is here.
pub fn update_available(local: &str, remote: Option<&str>) -> (r: bool)
    ensures
        r == (remote is Some && remote->0@ != local@),
{
    match remote {
        Some(c) => !text::same(c, local),
        None => false,
    }
}

/// A call of `git`: where it runs, and its arguments.
#[derive(Debug, PartialEq, Eq)]
pub struct GitCommand {
    pub cwd: String,
    pub args: Vec<String>,
}

/// The call that gives the commit that is here.
pub fn build_rev_parse_cmd(cwd: &str) -> (r: GitCommand)
    ensures
        r.cwd@ == cwd@,
        text::texts(r.args@) == seq!["rev-parse"@, "HEAD"@],
{
    let mut args: Vec<String> = Vec::new();
    args.push(String::from_str("rev-parse"));
    args.push(String::from_str("HEAD"));
    assert(text::texts(args@) =~= seq!["rev-parse"@, "HEAD"@]);
    GitCommand { cwd: String::from_str(cwd), args }
}

/// The call that gives the branch that is here.
pub fn build_branch_cmd(cwd: &str) -> (r: GitCommand)
    ensures
        r.cwd@ == cwd@,
        text::texts(r.args@) == seq!["rev-parse"@, "--abbrev-ref"@, "HEAD"@],
{
    let mut args: Vec<String> = Vec::new();
    args.push(String::from_str("rev-parse"));
    args.push(String::from_str("--abbrev-ref"));
    args.push(String::from_str("HEAD"));
    assert(text::texts(args@) =~= seq!["rev-parse"@, "--abbrev-ref"@, "HEAD"@]);
    GitCommand { cwd: String::from_str(cwd), args }
}

/// The call that gives the commit of a branch of the remote.
pub fn build_ls_remote_cmd(cwd: &str, branch: &str) -> (r: GitCommand)
    ensures
        r.cwd@ == cwd@,
        text::texts(r.args@) == seq!["ls-remote"@, "origin"@, branch@],
{
    let mut args: Vec<String> = Vec::new();
    args.push(String::from_str("ls-remote"));
    args.push(String::from_str("origin"));
    args.push(String::from_str(branch));
    assert(text::texts(args@) =~= seq!["ls-remote"@, "origin"@, branch@]);
    GitCommand { cwd: String::from_str(cwd), args }
}

/// The output of a call that can be used: the call succeeded, and the output is not blank.
pub fn captured_output(output: String, success: bool) -> (r: Option<String>)
    ensures
        text_view(r) == (if success && text::trimmed(output@).len() > 0 {
            Some(output@)
        } else {
            None
        }),
{
    if !success {
        return None;
    }
    let t = text::trim(output.as_str());
    if t.as_str().unicode_len() == 0 {
        None
    } else {
        Some(output)
    }
}

/// The branch that the output of the call for it names: its first line.
pub open spec fn branch_in(out: Option<Seq<char>>) -> Option<Seq<char>> {
    match out {
        Some(o) => if text::lines_of(o).len() > 0 && text::trimmed(text::lines_of(o)[0]).len() > 0 {
            Some(text::trimmed(text::lines_of(o)[0]))
        } else {
            None
        },
        None => None,
    }
}

/// The branch that the output of the call for it names.
pub fn branch_name(branch_out: Option<&str>) -> (r: Option<String>)
    ensures
        text_view(r) == branch_in(str_view(branch_out)),
{
    match branch_out {
        Some(o) => {
            let lines = text::lines(o);
            assert(text::texts(lines@).len() == lines@.len());
            if lines.len() == 0 {
                return None;
            }
            assert(text::texts(lines@)[0] == lines@[0]@);
            let t = text::trim(lines[0].as_str());
            if t.as_str().unicode_len() == 0 {
                None
            } else {
                Some(t)
            }
        },
        None => None,
    }
}

/// What a check for updates finds.
#[derive(Clone, Copy, Debug, PartialEq, Eq, Structural)]
pub enum UpdateCheck {
    Failed,
    Available,
    UpToDate,
}

/// What a check for updates finds, from the outputs of the three calls.
pub open spec fn update_check(
    branch_out: Option<Seq<char>>,
    local_out: Option<Seq<char>>,
    remote_out: Option<Seq<char>>,
) -> UpdateCheck {
    match (branch_in(branch_out), local_out, remote_out) {
        (Some(branch), Some(local), Some(remote)) => match branch_commit(remote, branch) {
            Some(c) => if c != text::trimmed(local) {
                UpdateCheck::Available
            } else {
                UpdateCheck::UpToDate
            },
            None => UpdateCheck::Failed,
        },
        _ => UpdateCheck::Failed,
    }
}

/// The message for what a check for updates finds.
pub open spec fn check_text(found: UpdateCheck, labels: ShellMenuLabels) -> Seq<char> {
    match found {
        UpdateCheck::Failed => labels.check_failed@,
        UpdateCheck::Available => labels.update_available@,
        UpdateCheck::UpToDate => labels.up_to_date@,
    }
}

/// The message of a check for updates, from the outputs of the three calls. A call that failed, or
/// was not made, has none.
pub fn check_update_message(
    branch_out: Option<&str>,
    local_out: Option<&str>,
    remote_out: Option<&str>,
    labels: &ShellMenuLabels,
) -> (r: String)
    ensures
        r@ == check_text(
            update_check(str_view(branch_out), str_view(local_out), str_view(remote_out)),
            *labels,
        ),
{
    let branch = match branch_name(branch_out) {
        Some(b) => b,
        None => {
            return labels.check_failed.clone();
        },
    };
    let local = match local_out {
        Some(l) => text::trim(l),
        None => {
            return labels.check_failed.clone();
        },
    };
    let remote = match remote_out {
        Some(o) => parse_ls_remote_branch(o, branch.as_str()),
        None => None,
    };
    match remote {
        Some(c) => {
            if update_available(local.as_str(), Some(c.as_str())) {
                labels.update_available.clone()
            } else {
                labels.up_to_date.clone()
            }
        },
        None => labels.check_failed.clone(),
    }
}

/// An item that can be checked.
#[derive(Debug, PartialEq, Eq)]
pub struct CheckItem {
    pub id: String,
    pub text: String,
    pub checked: bool,
}

/// An item that can be checked.
pub struct CheckItemView {
    pub id: Seq<char>,
    pub text: Seq<char>,
    pub checked: bool,
}

impl View for CheckItem {
    type V = CheckItemView;

    open spec fn view(&self) -> CheckItemView {
        CheckItemView { id: self.id@, text: self.text@, checked: self.checked }
    }
}

/// What the items of a list show.
pub open spec fn check_views(v: Seq<CheckItem>) -> Seq<CheckItemView> {
    v.map_values(|i: CheckItem| i@)
}

/// A row of the settings menu.
#[allow(inconsistent_fields)]
#[derive(Debug, PartialEq, Eq)]
pub enum SettingsRow {
    /// A menu below this one.
    Submenu { id: String, text: String, items: Vec<CheckItem> },
    Item { id: String, text: String },
    Check(CheckItem),
    Separator,
}

/// A row of the settings menu.
pub enum SettingsRowView {
    Submenu { id: Seq<char>, text: Seq<char>, items: Seq<CheckItemView> },
    Item { id: Seq<char>, text: Seq<char> },
    Check(CheckItemView),
    Separator,
}

impl View for SettingsRow {
    type V = SettingsRowView;

    open spec fn view(&self) -> SettingsRowView {
        match self {
            SettingsRow::Submenu { id, text, items } => SettingsRowView::Submenu {
                id: id@,
                text: text@,
                items: check_views(items@),
            },
            SettingsRow::Item { id, text } => SettingsRowView::Item { id: id@, text: text@ },
            SettingsRow::Check(item) => SettingsRowView::Check(item@),
            SettingsRow::Separator => SettingsRowView::Separator,
        }
    }
}

/// What the rows of a list show.
pub open spec fn settings_row_views(v: Seq<SettingsRow>) -> Seq<SettingsRowView> {
    v.map_values(|i: SettingsRow| i@)
}

/// The settings menu.
#[derive(Debug)]
pub struct SettingsMenu {
    pub id: String,
    pub text: String,
    pub rows: Vec<SettingsRow>,
}

/// The items of the languages: one for each, and one that follows the backend.
pub open spec fn language_items(language: Option<Seq<char>>, labels: ShellMenuLabels) -> Seq<
    CheckItemView,
> {
    let checked = checked_item(language);
    Seq::new(
        4,
        |i: int|
            CheckItemView {
                id: "settings-lang-"@ + languages()[i],
                text: labels.lang_names@[i]@,
                checked: checked == "settings-lang-"@ + languages()[i],
            },
    ).push(
        CheckItemView {
            id: "settings-lang-follow"@,
            text: labels.follow_alas@,
            checked: checked == "settings-lang-follow"@,
        },
    )
}

/// The items of the notifications.
pub open spec fn notification_items(s: ShellSettingsView, labels: ShellMenuLabels) -> Seq<
    CheckItemView,
> {
    seq![
        CheckItemView {
            id: "settings-notify-master"@,
            text: labels.notify_master@,
            checked: s.notify_enabled,
        },
        CheckItemView {
            id: "settings-notify-death"@,
            text: labels.notify_death@,
            checked: s.notify_scheduler_death,
        },
        CheckItemView {
            id: "settings-notify-task"@,
            text: labels.notify_task@,
            checked: s.notify_task_complete,
        },
    ]
}

/// The item of the start of the backend.
pub open spec fn auto_start_item(s: ShellSettingsView, labels: ShellMenuLabels) -> CheckItemView {
    CheckItemView {
        id: "settings-auto-start"@,
        text: labels.auto_start@,
        checked: s.auto_start_backend,
    }
}

/// The rows of the settings menu: the choice of the language, the check for updates, the start of
/// the backend and the notifications, with separators between these four.
pub open spec fn settings_rows(s: ShellSettingsView, labels: ShellMenuLabels) -> Seq<
    SettingsRowView,
> {
    seq![
        SettingsRowView::Submenu {
            id: "settings-language"@,
            text: labels.language@,
            items: language_items(s.language, labels),
        },
        SettingsRowView::Separator,
        SettingsRowView::Item { id: "settings-check-update"@, text: labels.check_update@ },
        SettingsRowView::Separator,
        SettingsRowView::Check(auto_start_item(s, labels)),
        SettingsRowView::Separator,
        SettingsRowView::Check(notification_items(s, labels)[0]),
        SettingsRowView::Check(notification_items(s, labels)[1]),
        SettingsRowView::Check(notification_items(s, labels)[2]),
    ]
}

/// Makes the settings menu for the settings and the language of the labels.
pub fn build_settings_menu(settings: &ShellSettings, labels: &ShellMenuLabels) -> (r: SettingsMenu)
    ensures
        r.id@ == "settings-menu"@,
        r.text@ == labels.settings@,
        settings_row_views(r.rows@) == settings_rows(settings@, *labels),
{
    let checked = checked_language_id(&settings.language);
    let ghost want = language_items(settings@.language, *labels);
    let mut items: Vec<CheckItem> = Vec::new();
    let langs: [&'static str; 4] = LANGS;
    let mut i: usize = 0;
    while i < 4
        invariant
            i <= 4,
            items@.len() == i,
            checked@ == checked_item(settings@.language),
            want == language_items(settings@.language, *labels),
            langs@.len() == 4,
            langs@[0]@ == "zh-CN"@,
            langs@[1]@ == "zh-TW"@,
            langs@[2]@ == "en-US"@,
            langs@[3]@ == "ja-JP"@,
            forall|j: int| 0 <= j < i ==> (#[trigger] items@[j])@ == want[j],
        decreases 4 - i,
    {
        let id = String::from_str("settings-lang-").concat(langs[i]);
        assert(langs@[i as int]@ == languages()[i as int]);
        let is_checked = text::same(checked, id.as_str());
        let item = CheckItem { id, text: labels.lang_names[i].clone(), checked: is_checked };
        assert(item@ == want[i as int]);
        items.push(item);
        i = i + 1;
    }
    let follow = CheckItem {
        id: String::from_str("settings-lang-follow"),
        text: labels.follow_alas.clone(),
        checked: text::same(checked, "settings-lang-follow"),
    };
    assert(follow@ == want[4]);
    items.push(follow);
    assert(check_views(items@) =~= want);
    let mut rows: Vec<SettingsRow> = Vec::new();
    rows.push(
        SettingsRow::Submenu {
            id: String::from_str("settings-language"),
            text: labels.language.clone(),
            items,
        },
    );
    rows.push(SettingsRow::Separator);
    rows.push(
        SettingsRow::Item {
            id: String::from_str("settings-check-update"),
            text: labels.check_update.clone(),
        },
    );
    rows.push(SettingsRow::Separator);
    rows.push(
        SettingsRow::Check(
            CheckItem {
                id: String::from_str("settings-auto-start"),
                text: labels.auto_start.clone(),
                checked: settings.auto_start_backend,
            },
        ),
    );
    rows.push(SettingsRow::Separator);
    rows.push(
        SettingsRow::Check(
            CheckItem {
                id: String::from_str("settings-notify-master"),
                text: labels.notify_master.clone(),
                checked: settings.notify_enabled,
            },
        ),
    );
    rows.push(
        SettingsRow::Check(
            CheckItem {
                id: String::from_str("settings-notify-death"),
                text: labels.notify_death.clone(),
                checked: settings.notify_scheduler_death,
            },
        ),
    );
    rows.push(
        SettingsRow::Check(
            CheckItem {
                id: String::from_str("settings-notify-task"),
                text: labels.notify_task.clone(),
                checked: settings.notify_task_complete,
            },
        ),
    );
    assert(settings_row_views(rows@) =~= settings_rows(settings@, *labels));
    SettingsMenu { id: String::from_str("settings-menu"), text: labels.settings.clone(), rows }
}

/// Exactly one of the language items is checked.
pub proof fn one_language_is_checked(language: Option<Seq<char>>, labels: ShellMenuLabels)
    ensures
        exists|k: int|
            0 <= k < 5 && (#[trigger] language_items(language, labels)[k]).checked && forall|j: int|
                0 <= j < 5 && j != k ==> !(#[trigger] language_items(language, labels)[j]).checked,
{
    reveal_strlit("settings-lang-");
    reveal_strlit("settings-lang-follow");
    reveal_strlit("settings-lang-zh-CN");
    reveal_strlit("settings-lang-zh-TW");
    reveal_strlit("settings-lang-en-US");
    reveal_strlit("settings-lang-ja-JP");
    reveal_strlit("zh-CN");
    reveal_strlit("zh-TW");
    reveal_strlit("en-US");
    reveal_strlit("ja-JP");
    let items = language_items(language, labels);
    let a = "settings-lang-zh-CN"@;
    let b = "settings-lang-zh-TW"@;
    let c = "settings-lang-en-US"@;
    let d = "settings-lang-ja-JP"@;
    let e = "settings-lang-follow"@;
    assert("settings-lang-"@ + "zh-CN"@ =~= a);
    assert("settings-lang-"@ + "zh-TW"@ =~= b);
    assert("settings-lang-"@ + "en-US"@ =~= c);
    assert("settings-lang-"@ + "ja-JP"@ =~= d);
    assert(a[17] != b[17]);
    assert(a[14] != c[14] && a[14] != d[14] && b[14] != c[14] && b[14] != d[14] && c[14] != d[14]);
    assert(a.len() != e.len() && b.len() != e.len() && c.len() != e.len() && d.len() != e.len());
    assert(languages()[0] == "zh-CN"@ && languages()[1] == "zh-TW"@);
    assert(languages()[2] == "en-US"@ && languages()[3] == "ja-JP"@);
    let checked = checked_item(language);
    assert(items[0].checked == (checked == a));
    assert(items[1].checked == (checked == b));
    assert(items[2].checked == (checked == c));
    assert(items[3].checked == (checked == d));
    assert(items[4].checked == (checked == e));
    let k: int = if checked == a {
        0
    } else if checked == b {
        1
    } else if checked == c {
        2
    } else if checked == d {
        3
    } else {
        4
    };
    assert(items[k].checked);
    assert forall|j: int| 0 <= j < 5 && j != k implies !(#[trigger] items[j]).checked by {
        assert(j == 0 || j == 1 || j == 2 || j == 3 || j == 4);
    }
}

/// What a click in the settings menu asks for.
#[derive(Clone, Copy, Debug, PartialEq, Eq, Structural)]
pub enum SettingsClick {
    CheckUpdate,
    AutoStart,
    NotifyMaster,
    NotifyDeath,
    NotifyTask,
    Language,
    Other,
}

/// What a click on the item `id` asks for.
pub open spec fn settings_clicked(id: Seq<char>) -> SettingsClick {
    if id == "settings-check-update"@ {
        SettingsClick::CheckUpdate
    } else if id == "settings-auto-start"@ {
        SettingsClick::AutoStart
    } else if id == "settings-notify-master"@ {
        SettingsClick::NotifyMaster
    } else if id == "settings-notify-death"@ {
        SettingsClick::NotifyDeath
    } else if id == "settings-notify-task"@ {
        SettingsClick::NotifyTask
    } else if text::begins(id, "settings-lang-"@) {
        SettingsClick::Language
    } else {
        SettingsClick::Other
    }
}

/// Every row that can be clicked asks for what it shows.
pub proof fn every_row_is_understood(s: ShellSettingsView, labels: ShellMenuLabels)
    ensures
        ({
            let rows = settings_rows(s, labels);
            &&& settings_clicked(rows[2]->Item_id) == SettingsClick::CheckUpdate
            &&& settings_clicked(rows[4]->Check_0.id) == SettingsClick::AutoStart
            &&& settings_clicked(rows[6]->Check_0.id) == SettingsClick::NotifyMaster
            &&& settings_clicked(rows[7]->Check_0.id) == SettingsClick::NotifyDeath
            &&& settings_clicked(rows[8]->Check_0.id) == SettingsClick::NotifyTask
            &&& forall|k: int|
                0 <= k < 5 ==> settings_clicked((#[trigger] rows[0]->items[k]).id)
                    == SettingsClick::Language
        }),
{
    reveal_strlit("settings-check-update");
    reveal_strlit("settings-auto-start");
    reveal_strlit("settings-notify-master");
    reveal_strlit("settings-notify-death");
    reveal_strlit("settings-notify-task");
    reveal_strlit("settings-lang-");
    reveal_strlit("settings-lang-follow");
    let update = "settings-check-update"@;
    let auto_start = "settings-auto-start"@;
    let master = "settings-notify-master"@;
    let death = "settings-notify-death"@;
    let task = "settings-notify-task"@;
    assert(update[9] == 'c' && auto_start[9] == 'a' && master[9] == 'n');
    assert(death[9] == 'n' && task[9] == 'n');
    assert(master[16] == 'm' && death[16] == 'd' && task[16] == 't');
    assert forall|k: int| 0 <= k < 5 implies settings_clicked(
        (#[trigger] settings_rows(s, labels)[0]->items[k]).id,
    ) == SettingsClick::Language by {
        let id = settings_rows(s, labels)[0]->items[k].id;
        let prefix = "settings-lang-"@;
        if k < 4 {
            assert(id == prefix + languages()[k]);
            assert(id.subrange(0, 14) =~= prefix);
        } else {
            assert(id == "settings-lang-follow"@);
            assert(id.subrange(0, 14) =~= prefix);
        }
        assert(id[9] == id.subrange(0, 14)[9]);
        assert(id[9] == 'l');
    }
}

/// What a click on the item `id` asks for.
pub fn settings_click(id: &str) -> (r: SettingsClick)
    ensures
        r == settings_clicked(id@),
{
    if text::same(id, "settings-check-update") {
        SettingsClick::CheckUpdate
    } else if text::same(id, "settings-auto-start") {
        SettingsClick::AutoStart
    } else if text::same(id, "settings-notify-master") {
        SettingsClick::NotifyMaster
    } else if text::same(id, "settings-notify-death") {
        SettingsClick::NotifyDeath
    } else if text::same(id, "settings-notify-task") {
        SettingsClick::NotifyTask
    } else if text::starts_with(id, "settings-lang-") {
        SettingsClick::Language
    } else {
        SettingsClick::Other
    }
}

/// A click on the item of a language chooses that language, whatever it is; one on the item that
/// follows the backend chooses none; and one on anything else changes nothing.
pub proof fn what_a_language_click_chooses(current: Option<Seq<char>>, lang: Seq<char>, id: Seq<char>)
    ensures
        lang != "follow"@ ==> language_clicked(current, "settings-lang-"@ + lang) == Some(lang),
        language_clicked(current, "settings-lang-"@ + "follow"@) is None,
        !"settings-lang-"@.is_prefix_of(id) ==> language_clicked(current, id) == current,
{
    reveal_strlit("settings-lang-");
    reveal_strlit("settings-lang-follow");
    reveal_strlit("follow");
    let prefix = "settings-lang-"@;
    let clicked = prefix + lang;
    assert("settings-lang-"@ + "follow"@ =~= "settings-lang-follow"@);
    assert(clicked.skip(prefix.len() as int) =~= lang);
    assert(clicked.subrange(0, prefix.len() as int) =~= prefix);
    if clicked == "settings-lang-follow"@ {
        assert("settings-lang-follow"@.skip(prefix.len() as int) =~= "follow"@);
    }
    if id == "settings-lang-follow"@ {
        assert(id.subrange(0, prefix.len() as int) =~= prefix);
    }
}

/// Each switch turns its own setting over and no other.
pub proof fn each_switch_turns_its_own_setting(s: ShellSettingsView)
    ensures
        ({
            let t = auto_start_flipped(s);
            &&& t.auto_start_backend == !s.auto_start_backend
            &&& t.notify_enabled == s.notify_enabled && t.notify_scheduler_death
                == s.notify_scheduler_death && t.notify_task_complete == s.notify_task_complete
                && t.language == s.language
        }),
        ({
            let t = notify_master_flipped(s);
            &&& t.notify_enabled == !s.notify_enabled
            &&& t.auto_start_backend == s.auto_start_backend && t.notify_scheduler_death
                == s.notify_scheduler_death && t.notify_task_complete == s.notify_task_complete
                && t.language == s.language
        }),
        ({
            let t = notify_death_flipped(s);
            &&& t.notify_scheduler_death == !s.notify_scheduler_death
            &&& t.auto_start_backend == s.auto_start_backend && t.notify_enabled == s.notify_enabled
                && t.notify_task_complete == s.notify_task_complete && t.language == s.language
        }),
        ({
            let t = notify_task_flipped(s);
            &&& t.notify_task_complete == !s.notify_task_complete
            &&& t.auto_start_backend == s.auto_start_backend && t.notify_enabled == s.notify_enabled
                && t.notify_scheduler_death == s.notify_scheduler_death && t.language == s.language
        }),
{
}

/// The item of the chosen language is checked where the menu has one; else it is the one that follows
/// the backend.
pub proof fn which_language_is_checked(language: Option<Seq<char>>)
    ensures
        language is Some && languages().contains(language->0) ==> checked_item(language)
            == "settings-lang-"@ + language->0,
        language is None || !languages().contains(language->0) ==> checked_item(language)
            == "settings-lang-follow"@,
{
    reveal_strlit("settings-lang-");
    reveal_strlit("settings-lang-zh-CN");
    reveal_strlit("settings-lang-zh-TW");
    reveal_strlit("settings-lang-en-US");
    reveal_strlit("settings-lang-ja-JP");
    reveal_strlit("zh-CN");
    reveal_strlit("zh-TW");
    reveal_strlit("en-US");
    reveal_strlit("ja-JP");
    assert("settings-lang-"@ + "zh-CN"@ =~= "settings-lang-zh-CN"@);
    assert("settings-lang-"@ + "zh-TW"@ =~= "settings-lang-zh-TW"@);
    assert("settings-lang-"@ + "en-US"@ =~= "settings-lang-en-US"@);
    assert("settings-lang-"@ + "ja-JP"@ =~= "settings-lang-ja-JP"@);
    let all = languages();
    assert(all[0] == "zh-CN"@ && all[1] == "zh-TW"@ && all[2] == "en-US"@ && all[3] == "ja-JP"@);
    if language is Some && all.contains(language->0) {
        let k = choose|k: int| 0 <= k < all.len() && all[k] == language->0;
        assert(k == 0 || k == 1 || k == 2 || k == 3);
        assert("zh-TW"@[3] != "zh-CN"@[3]);
        assert("en-US"@[0] != "zh-CN"@[0] && "en-US"@[0] != "zh-TW"@[0]);
        assert("ja-JP"@[0] != "zh-CN"@[0] && "ja-JP"@[0] != "zh-TW"@[0]);
        assert("ja-JP"@[0] != "en-US"@[0]);
    }
}

/// The commit of a reference is what stands before it on the first line that ends in it, without the
/// white space around; lines on other references play no part.
pub proof fn which_commit_is_found(
    out: Seq<char>,
    before: Seq<Seq<char>>,
    line: Seq<char>,
    after: Seq<Seq<char>>,
    commit: Seq<char>,
    a: Seq<char>,
    b: Seq<char>,
)
    requires
        text::lines_of(out) == before + seq![line] + after,
        forall|i: int|
            0 <= i < before.len() ==> !text::ends(text::trimmed_end(#[trigger] before[i]), a)
                && !text::ends(text::trimmed_end(before[i]), b),
    ensures
        text::trimmed_end(line) == commit + a || (text::trimmed_end(line) == commit + b
            && !text::ends(text::trimmed_end(line), a)) ==> commit_of(out, a, b) == (
        if text::trimmed(commit).len() > 0 {
            Some(text::trimmed(commit))
        } else {
            None
        }),
        after.len() == 0 && !text::ends(text::trimmed_end(line), a) && !text::ends(
            text::trimmed_end(line),
            b,
        ) ==> commit_of(out, a, b) is None,
{
    first_line_with_suffix(before, line, after, a, b);
    text::taking_off_an_ending(text::trimmed_end(line), commit, a);
    text::taking_off_an_ending(text::trimmed_end(line), commit, b);
    if after.len() == 0 && !text::ends(text::trimmed_end(line), a) && !text::ends(
        text::trimmed_end(line),
        b,
    ) {
        let all = before + seq![line] + after;
        assert forall|i: int| 0 <= i < all.len() implies !text::ends(
            text::trimmed_end(#[trigger] all[i]),
            a,
        ) && !text::ends(text::trimmed_end(all[i]), b) by {
            if i < before.len() {
                assert(all[i] == before[i]);
            } else {
                assert(all[i] == line);
            }
        }
        first_line_with_suffix(all, line, after, a, b);
    }
}

proof fn first_line_with_suffix(
    before: Seq<Seq<char>>,
    line: Seq<char>,
    after: Seq<Seq<char>>,
    a: Seq<char>,
    b: Seq<char>,
)
    requires
        forall|i: int|
            0 <= i < before.len() ==> !text::ends(text::trimmed_end(#[trigger] before[i]), a)
                && !text::ends(text::trimmed_end(before[i]), b),
    ensures
        first_before(before, a, b) is None,
        before_suffix(text::trimmed_end(line), a, b) is Some ==> first_before(
            before + seq![line] + after,
            a,
            b,
        ) == before_suffix(text::trimmed_end(line), a, b),
    decreases before.len(),
{
    let whole = before + seq![line] + after;
    if before.len() == 0 {
        assert(whole[0] == line);
    } else {
        assert(whole[0] == before[0]);
        assert(whole.skip(1) =~= before.skip(1) + seq![line] + after);
        assert forall|i: int| 0 <= i < before.skip(1).len() implies !text::ends(
            text::trimmed_end(#[trigger] before.skip(1)[i]),
            a,
        ) && !text::ends(text::trimmed_end(before.skip(1)[i]), b) by {
            assert(before.skip(1)[i] == before[i + 1]);
        }
        first_line_with_suffix(before.skip(1), line, after, a, b);
    }
}

/// What a check for updates finds: it fails unless the branch, the commit here and that of the branch
/// at the remote are all known; and there is an update exactly if the two commits differ.
pub proof fn what_a_check_finds(
    branch_out: Option<Seq<char>>,
    local_out: Option<Seq<char>>,
    remote_out: Option<Seq<char>>,
)
    ensures
        ({
            let lines = text::lines_of(branch_out->0);
            let named = branch_out is Some && lines.len() > 0 && text::trimmed(lines[0]).len() > 0;
            let branch = text::trimmed(lines[0]);
            let remote = commit_of(
                remote_out->0,
                "\trefs/heads/"@ + branch,
                "\t"@ + branch,
            );
            let known = named && local_out is Some && remote_out is Some && remote is Some;
            let found = update_check(branch_out, local_out, remote_out);
            &&& found == UpdateCheck::Failed <==> !known
            &&& known ==> (found == UpdateCheck::UpToDate <==> remote->0 == text::trimmed(
                local_out->0,
            ))
            &&& known ==> (found == UpdateCheck::Available <==> remote->0 != text::trimmed(
                local_out->0,
            ))
        }),
{
}

/// What a click in the settings menu asks for is known by the item, and by nothing else.
pub proof fn what_a_settings_click_asks_for(id: Seq<char>)
    ensures
        settings_clicked(id) == SettingsClick::CheckUpdate <==> id == "settings-check-update"@,
        settings_clicked(id) == SettingsClick::AutoStart <==> id == "settings-auto-start"@,
        settings_clicked(id) == SettingsClick::NotifyMaster <==> id == "settings-notify-master"@,
        settings_clicked(id) == SettingsClick::NotifyDeath <==> id == "settings-notify-death"@,
        settings_clicked(id) == SettingsClick::NotifyTask <==> id == "settings-notify-task"@,
        settings_clicked(id) == SettingsClick::Language <==> "settings-lang-"@.is_prefix_of(id),
{
    reveal_strlit("settings-check-update");
    reveal_strlit("settings-auto-start");
    reveal_strlit("settings-notify-master");
    reveal_strlit("settings-notify-death");
    reveal_strlit("settings-notify-task");
    reveal_strlit("settings-lang-");
    let update = "settings-check-update"@;
    let auto_start = "settings-auto-start"@;
    let master = "settings-notify-master"@;
    let death = "settings-notify-death"@;
    let task = "settings-notify-task"@;
    let lang = "settings-lang-"@;
    assert(update[9] == 'c' && auto_start[9] == 'a' && master[9] == 'n');
    assert(death[9] == 'n' && task[9] == 'n' && lang[9] == 'l');
    assert(master[16] == 'm' && death[16] == 'd' && task[16] == 't');
    if lang.is_prefix_of(id) {
        assert(id.subrange(0, lang.len() as int)[9] == id[9]);
    }
}

/// Every row of the settings shows the setting that it changes, and is checked exactly while that is
/// on.
pub proof fn every_row_shows_its_setting(s: ShellSettingsView, labels: ShellMenuLabels)
    ensures
        ({
            let rows = settings_rows(s, labels);
            &&& rows.len() == 9
            &&& rows[1] is Separator && rows[3] is Separator && rows[5] is Separator
            &&& rows[0]->Submenu_text == labels.language@ && rows[0]->items.len() == 5
            &&& rows[2]->Item_text == labels.check_update@
            &&& rows[4]->Check_0.checked == s.auto_start_backend && rows[4]->Check_0.text
                == labels.auto_start@
            &&& rows[6]->Check_0.checked == s.notify_enabled && rows[6]->Check_0.text
                == labels.notify_master@
            &&& rows[7]->Check_0.checked == s.notify_scheduler_death && rows[7]->Check_0.text
                == labels.notify_death@
            &&& rows[8]->Check_0.checked == s.notify_task_complete && rows[8]->Check_0.text
                == labels.notify_task@
            &&& forall|k: int|
                0 <= k < 4 ==> (#[trigger] rows[0]->items[k]).text == labels.lang_names@[k]@
                    && rows[0]->items[k].id == "settings-lang-"@ + languages()[k]
            &&& rows[0]->items[4].text == labels.follow_alas@
        }),
{
}

/// The message of a check for updates tells the three outcomes apart.
pub proof fn what_a_check_says(
    branch_out: Option<Seq<char>>,
    local: Seq<char>,
    remote: Seq<char>,
    branch: Seq<char>,
    labels: ShellMenuLabels,
)
    requires
        branch_in(branch_out) == Some(branch),
    ensures
        ({
            let said = check_text(update_check(branch_out, Some(local), Some(remote)), labels);
            let commit = branch_commit(remote, branch);
            &&& commit is None ==> said == labels.check_failed@
            &&& commit is Some && commit->0 == text::trimmed(local) ==> said == labels.up_to_date@
            &&& commit is Some && commit->0 != text::trimmed(local) ==> said
                == labels.update_available@
        }),
        check_text(update_check(None, Some(local), Some(remote)), labels) == labels.check_failed@,
        check_text(update_check(branch_out, None, Some(remote)), labels) == labels.check_failed@,
        check_text(update_check(branch_out, Some(local), None), labels) == labels.check_failed@,
{
}

} // verus!
