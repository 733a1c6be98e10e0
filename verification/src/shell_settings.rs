//! The settings of the launcher itself, and how they are kept on disk.
use vstd::prelude::*;

use crate::json::{str_view, text_view};
use crate::platform::{join_path, joined_path, Platform};
use crate::text;

verus! {

/// The settings of the launcher.
#[derive(Debug, PartialEq, Eq)]
pub struct ShellSettings {
    /// The language that the user has chosen; none means that of the backend.
    pub language: Option<String>,
    pub auto_start_backend: bool,
    /// Whether there are any notifications.
    pub notify_enabled: bool,
    /// Whether the unexpected end of the scheduler is notified.
    pub notify_scheduler_death: bool,
    /// Whether the completion of a task is notified.
    pub notify_task_complete: bool,
}

/// The settings of the launcher.
pub struct ShellSettingsView {
    pub language: Option<Seq<char>>,
    pub auto_start_backend: bool,
    pub notify_enabled: bool,
    pub notify_scheduler_death: bool,
    pub notify_task_complete: bool,
}

impl View for ShellSettings {
    type V = ShellSettingsView;

    open spec fn view(&self) -> ShellSettingsView {
        ShellSettingsView {
            language: text_view(self.language),
            auto_start_backend: self.auto_start_backend,
            notify_enabled: self.notify_enabled,
            notify_scheduler_death: self.notify_scheduler_death,
            notify_task_complete: self.notify_task_complete,
        }
    }
}

/// The settings of a first run.
pub open spec fn default_settings() -> ShellSettingsView {
    ShellSettingsView {
        language: None,
        auto_start_backend: true,
        notify_enabled: true,
        notify_scheduler_death: true,
        notify_task_complete: false,
    }
}

impl Default for ShellSettings {
    fn default() -> (r: ShellSettings)
        ensures
            r@ == default_settings(),
    {
        ShellSettings {
            language: None,
            auto_start_backend: true,
            notify_enabled: true,
            notify_scheduler_death: true,
            notify_task_complete: false,
        }
    }
}

impl Clone for ShellSettings {
    fn clone(&self) -> (r: ShellSettings)
        ensures
            r@ == self@,
    {
        let language = match &self.language {
            Some(l) => Some(l.clone()),
            None => None,
        };
        ShellSettings {
            language,
            auto_start_backend: self.auto_start_backend,
            notify_enabled: self.notify_enabled,
            notify_scheduler_death: self.notify_scheduler_death,
            notify_task_complete: self.notify_task_complete,
        }
    }
}

/// Where the settings are kept, below the directory for configurations. Without such a directory
/// it is the empty path, which is no place at all.
pub open spec fn settings_place(config_dir: Option<Seq<char>>, platform: Platform) -> Seq<char> {
    match config_dir {
        Some(dir) => joined_path(
            joined_path(dir, "alas-launcher"@, platform),
            "settings.json"@,
            platform,
        ),
        None => Seq::empty(),
    }
}

/// Where the settings are kept, below the directory for configurations.
pub fn settings_path(config_dir: Option<&str>, platform: Platform) -> (r: String)
    ensures
        r@ == settings_place(str_view(config_dir), platform),
{
    match config_dir {
        Some(dir) => {
            let own = join_path(dir, "alas-launcher", platform);
            join_path(own.as_str(), "settings.json", platform)
        },
        None => {
            let r = String::new();
            assert(r@ =~= Seq::<char>::empty());
            r
        },
    }
}

/// The settings that a run begins with. `path` is where they are kept, `content` what is there, and
/// `parsed` what the content says, if it can be understood. Everything else means a first run.
pub fn load(path: &str, content: Option<&str>, parsed: Option<ShellSettings>) -> (r: ShellSettings)
    ensures
        r@ == (if path@.len() > 0 && content is Some && text::trimmed(content->0@).len() > 0
            && parsed is Some {
            parsed->0@
        } else {
            default_settings()
        }),
{
    if path.unicode_len() == 0 {
        return ShellSettings::default();
    }
    match content {
        Some(c) => {
            let t = text::trim(c);
            if t.as_str().unicode_len() == 0 {
                return ShellSettings::default();
            }
            match parsed {
                Some(s) => s,
                None => ShellSettings::default(),
            }
        },
        None => ShellSettings::default(),
    }
}

impl ShellSettings {
    /// The language that is used: the one that the user has chosen, else that of the backend, else
    /// Chinese.
    pub fn resolved_language(&self, deploy_language: Option<&str>) -> (r: String)
        ensures
            r@ == resolved(self@.language, str_view(deploy_language)),
    {
        match &self.language {
            Some(l) => l.clone(),
            None => match deploy_language {
                Some(d) => String::from_str(d),
                None => String::from_str("zh-CN"),
            },
        }
    }

    /// Begins to keep the settings at `path`. The empty path is no place: there is nothing to do.
    pub fn save(&self, path: &str) -> (r: SaveAction)
        ensures
            r == (if path@.len() == 0 {
                SaveAction::Done
            } else {
                SaveAction::MakeDirectory
            }),
    {
        if path.unicode_len() == 0 {
            SaveAction::Done
        } else {
            SaveAction::MakeDirectory
        }
    }
}

/// The language that is used.
pub open spec fn resolved(chosen: Option<Seq<char>>, deployed: Option<Seq<char>>) -> Seq<char> {
    match (chosen, deployed) {
        (Some(c), _) => c,
        (None, Some(d)) => d,
        (None, None) => "zh-CN"@,
    }
}

/// What was done while the settings were kept, and whether it succeeded.
#[derive(Clone, Copy, Debug, PartialEq, Eq, Structural)]
pub enum SaveEvent {
    DirectoryMade { ok: bool },
    Staged { ok: bool },
    Renamed { ok: bool },
    Written { ok: bool },
}

/// Why the settings were not kept.
#[derive(Clone, Copy, Debug, PartialEq, Eq, Structural)]
pub enum SaveError {
    Directory,
    Write,
}

/// What is to be done next to keep the settings.
#[derive(Clone, Copy, Debug, PartialEq, Eq, Structural)]
pub enum SaveAction {
    /// Make the directory that they are kept in.
    MakeDirectory,
    /// Write them to a file beside the real one, down to the disk.
    Stage,
    /// Put that file in the place of the real one.
    Rename,
    /// Remove that file, and write to the real one directly.
    WriteDirectly,
    Done,
    Fail(SaveError),
}

/// What is to be done after something was done.
pub open spec fn save_action(event: SaveEvent) -> SaveAction {
    match event {
        SaveEvent::DirectoryMade { ok } => if ok {
            SaveAction::Stage
        } else {
            SaveAction::Fail(SaveError::Directory)
        },
        SaveEvent::Staged { ok } => if ok {
            SaveAction::Rename
        } else {
            SaveAction::WriteDirectly
        },
        SaveEvent::Renamed { ok } => if ok {
            SaveAction::Done
        } else {
            SaveAction::WriteDirectly
        },
        SaveEvent::Written { ok } => if ok {
            SaveAction::Done
        } else {
            SaveAction::Fail(SaveError::Write)
        },
    }
}

/// Decides what is to be done to keep the settings: a file is written beside the real one and put
/// in its place, so that a crash leaves the old settings or the new ones. Only where that fails is
/// the real file written directly.
pub fn save_step(event: SaveEvent) -> (r: SaveAction)
    ensures
        r == save_action(event),
{
    match event {
        SaveEvent::DirectoryMade { ok } => {
            if ok {
                SaveAction::Stage
            } else {
                SaveAction::Fail(SaveError::Directory)
            }
        },
        SaveEvent::Staged { ok } => {
            if ok {
                SaveAction::Rename
            } else {
                SaveAction::WriteDirectly
            }
        },
        SaveEvent::Renamed { ok } => {
            if ok {
                SaveAction::Done
            } else {
                SaveAction::WriteDirectly
            }
        },
        SaveEvent::Written { ok } => {
            if ok {
                SaveAction::Done
            } else {
                SaveAction::Fail(SaveError::Write)
            }
        },
    }
}

/// The file that is written beside the real one.
pub fn staging_path(path: &str) -> (r: String)
    ensures
        r@ == path@ + ".tmp"@,
{
    let mut r = String::from_str(path);
    r.append(".tmp");
    r
}

/// No file is left beside the real one: where it was not put in the place of the real one, it is
/// removed before anything else; and the real file is written directly in no other case.
pub proof fn no_staged_file_is_left(event: SaveEvent)
    ensures
        save_action(event) == SaveAction::WriteDirectly <==> event == (SaveEvent::Staged { ok: false })
            || event == (SaveEvent::Renamed { ok: false }),
        save_action(event) == SaveAction::Done <==> event == (SaveEvent::Renamed { ok: true })
            || event == (SaveEvent::Written { ok: true }),
{
}

/// The choice of the user comes before the language of the backend, and that before the default.
pub proof fn whose_language_is_used(chosen: Seq<char>, deployed: Option<Seq<char>>)
    ensures
        resolved(Some(chosen), deployed) == chosen,
        resolved(None, Some(chosen)) == chosen,
        resolved(None, None) == "zh-CN"@,
{
}

/// Keeping the settings goes on from the directory to the staged file and from there to its place; it
/// fails only where the directory cannot be made or the real file cannot be written directly.
pub proof fn how_settings_are_kept(event: SaveEvent)
    ensures
        save_action(event) == SaveAction::Stage <==> event == (SaveEvent::DirectoryMade {
            ok: true,
        }),
        save_action(event) == SaveAction::Rename <==> event == (SaveEvent::Staged { ok: true }),
        save_action(event) == SaveAction::Fail(SaveError::Directory) <==> event == (
        SaveEvent::DirectoryMade { ok: false }),
        save_action(event) == SaveAction::Fail(SaveError::Write) <==> event == (SaveEvent::Written {
            ok: false,
        }),
        save_action(event) != SaveAction::MakeDirectory,
{
}

/// On systems with slashes the settings are kept two components below the directory for
/// configurations.
pub proof fn where_settings_are_kept(dir: Seq<char>, platform: Platform)
    requires
        platform != Platform::Windows,
        dir.len() > 0,
    ensures
        crate::platform::slash_parts(settings_place(Some(dir), platform))
            == crate::platform::slash_parts(dir) + seq!["alas-launcher"@, "settings.json"@],
        settings_place(None, platform).len() == 0,
{
    reveal_strlit("alas-launcher");
    reveal_strlit("settings.json");
    reveal_strlit(".");
    assert("."@.len() == 1 && "alas-launcher"@.len() == 13 && "settings.json"@.len() == 13);
    let own = joined_path(dir, "alas-launcher"@, platform);
    crate::platform::a_joined_name_is_one_component_more(dir, "alas-launcher"@, platform);
    crate::platform::a_joined_name_is_one_component_more(own, "settings.json"@, platform);
    let base = crate::platform::slash_parts(dir);
    assert(base.push("alas-launcher"@).push("settings.json"@) =~= base + seq![
        "alas-launcher"@,
        "settings.json"@,
    ]);
}

} // verus!
