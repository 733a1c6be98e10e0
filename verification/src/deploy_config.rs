//! What the launcher reads of the configuration of the backend.
use vstd::prelude::*;

use crate::json::{json_view, text_view, yaml_document, Json, JsonView};
use crate::setup::get_deploy_config;

verus! {

/// The port of the web interface where none is configured.
pub const DEFAULT_PORT: u16 = 22267;

/// What the launcher reads of the configuration.
#[derive(Debug)]
pub struct DeployConfig {
    webui_port: u16,
    language: Option<String>,
    enable_reload: bool,
    ws_control_available: bool,
}

/// What the launcher reads of the configuration.
pub struct DeployConfigView {
    pub webui_port: u16,
    pub language: Option<Seq<char>>,
    pub enable_reload: bool,
    pub ws_control_available: bool,
}

impl View for DeployConfig {
    type V = DeployConfigView;

    closed spec fn view(&self) -> DeployConfigView {
        DeployConfigView {
            webui_port: self.webui_port,
            language: text_view(self.language),
            enable_reload: self.enable_reload,
            ws_control_available: self.ws_control_available,
        }
    }
}

/// The value two levels below a document.
pub open spec fn below(config: Option<JsonView>, a: Seq<char>, b: Seq<char>) -> Option<JsonView> {
    match config {
        Some(c) => match c.member(a) {
            Some(d) => d.member(b),
            None => None,
        },
        None => None,
    }
}

/// The value three levels below a document.
pub open spec fn far_below(
    config: Option<JsonView>,
    a: Seq<char>,
    b: Seq<char>,
    c: Seq<char>,
) -> Option<JsonView> {
    match below(config, a, b) {
        Some(v) => v.member(c),
        None => None,
    }
}

/// A credential of the web interface is configured: a text that is not empty.
pub open spec fn has_credential(config: Option<JsonView>, name: Seq<char>) -> bool {
    match far_below(config, "Deploy"@, "Webui"@, name) {
        Some(JsonView::Str(s)) => s.len() > 0,
        _ => false,
    }
}

/// What the launcher reads of a configuration: the port cut to sixteen bits, the language if it is
/// a text, whether the backend reloads itself, which it does by default, and whether the scheduler
/// can be controlled, which it can where no credential is configured.
pub open spec fn deployed(config: Option<JsonView>) -> DeployConfigView {
    DeployConfigView {
        webui_port: match far_below(config, "Deploy"@, "Webui"@, "WebuiPort"@) {
            Some(JsonView::Number(Some(p))) => (p % 65536) as u16,
            _ => DEFAULT_PORT,
        },
        language: match below(config, "Gui"@, "Language"@) {
            Some(JsonView::Str(s)) => Some(s),
            _ => None,
        },
        enable_reload: match far_below(config, "Deploy"@, "Update"@, "EnableReload"@) {
            Some(JsonView::Bool(b)) => b,
            _ => true,
        },
        ws_control_available: !has_credential(config, "Password"@) && !has_credential(
            config,
            "WebuiSSLKey"@,
        ) && !has_credential(config, "WebuiSSLCert"@),
    }
}

/// The value two levels below a document.
fn get_below<'a>(config: Option<&'a Json>, a: &str, b: &str) -> (r: Option<&'a Json>)
    ensures
        json_view(r) == below(json_view(config), a@, b@),
{
    match config {
        Some(c) => match c.get(a) {
            Some(d) => d.get(b),
            None => None,
        },
        None => None,
    }
}

/// The value three levels below a document.
fn get_far_below<'a>(config: Option<&'a Json>, a: &str, b: &str, c: &str) -> (r: Option<&'a Json>)
    ensures
        json_view(r) == far_below(json_view(config), a@, b@, c@),
{
    match get_below(config, a, b) {
        Some(v) => v.get(c),
        None => None,
    }
}

/// Whether a credential of the web interface is configured.
fn configured(config: Option<&Json>, name: &str) -> (r: bool)
    ensures
        r == has_credential(json_view(config), name@),
{
    match get_far_below(config, "Deploy", "Webui", name) {
        Some(v) => match v.as_str() {
            Some(s) => s.unicode_len() > 0,
            None => false,
        },
        None => false,
    }
}

/// What the content of the configuration file says, if there is one and it can be read.
pub open spec fn file_document(content: Option<&str>) -> Option<JsonView> {
    match content {
        Some(c) => yaml_document(c@),
        None => None,
    }
}

impl DeployConfig {
    /// Reads the content of the configuration file. A file that is not there or cannot be read is
    /// like an empty one.
    pub fn load(content: Option<&str>) -> (r: DeployConfig)
        ensures
            r@ == deployed(file_document(content)),
    {
        let config = get_deploy_config(content);
        Self::from_value(config.as_ref())
    }

    /// Reads a configuration.
    pub fn from_value(config: Option<&Json>) -> (r: DeployConfig)
        ensures
            r@ == deployed(json_view(config)),
    {
        let port = match get_far_below(config, "Deploy", "Webui", "WebuiPort") {
            Some(v) => v.as_u64(),
            None => None,
        };
        let webui_port: u16 = match port {
            Some(p) => (p % 65536) as u16,
            None => DEFAULT_PORT,
        };
        let language = match get_below(config, "Gui", "Language") {
            Some(v) => match v.as_str() {
                Some(s) => Some(String::from_str(s)),
                None => None,
            },
            None => None,
        };
        let reload = match get_far_below(config, "Deploy", "Update", "EnableReload") {
            Some(v) => v.as_bool(),
            None => None,
        };
        let enable_reload = match reload {
            Some(b) => b,
            None => true,
        };
        let ws_control_available = !(configured(config, "Password") || configured(
            config,
            "WebuiSSLKey",
        ) || configured(config, "WebuiSSLCert"));
        DeployConfig { webui_port, language, enable_reload, ws_control_available }
    }

    /// The port of the web interface.
    pub fn webui_port(&self) -> (r: u16)
        ensures
            r == self@.webui_port,
    {
        self.webui_port
    }

    /// The language of the web interface.
    pub fn language(&self) -> (r: Option<String>)
        ensures
            text_view(r) == self@.language,
    {
        match &self.language {
            Some(l) => Some(l.clone()),
            None => None,
        }
    }

    /// Whether the backend reloads itself.
    pub fn enable_reload(&self) -> (r: bool)
        ensures
            r == self@.enable_reload,
    {
        self.enable_reload
    }

    /// Whether the scheduler can be controlled.
    pub fn ws_control_available(&self) -> (r: bool)
        ensures
            r == self@.ws_control_available,
    {
        self.ws_control_available
    }
}

/// The port of the web interface, from the content of the configuration file.
pub fn webui_port(content: Option<&str>) -> (r: u16)
    ensures
        r == deployed(file_document(content)).webui_port,
{
    DeployConfig::load(content).webui_port()
}

/// The language of the web interface, from the content of the configuration file.
pub fn language(content: Option<&str>) -> (r: Option<String>)
    ensures
        text_view(r) == deployed(file_document(content)).language,
{
    DeployConfig::load(content).language()
}

/// Whether the backend reloads itself, from the content of the configuration file.
pub fn enable_reload(content: Option<&str>) -> (r: bool)
    ensures
        r == deployed(file_document(content)).enable_reload,
{
    DeployConfig::load(content).enable_reload()
}

/// Whether the scheduler can be controlled, from the content of the configuration file.
pub fn ws_control_available(content: Option<&str>) -> (r: bool)
    ensures
        r == deployed(file_document(content)).ws_control_available,
{
    DeployConfig::load(content).ws_control_available()
}

/// A port that fits into sixteen bits is taken as it is.
pub proof fn small_ports_are_kept(config: Option<JsonView>, p: u64)
    requires
        far_below(config, "Deploy"@, "Webui"@, "WebuiPort"@) == Some(JsonView::Number(Some(p))),
        p <= u16::MAX,
    ensures
        deployed(config).webui_port == p,
{
}

/// Without a configuration everything has its default.
pub proof fn missing_configuration_has_the_defaults()
    ensures
        deployed(None) == (DeployConfigView {
            webui_port: DEFAULT_PORT,
            language: None,
            enable_reload: true,
            ws_control_available: true,
        }),
{
}

/// What is read of a configuration: the port is a number below `Deploy` and `Webui`, cut to sixteen
/// bits; the language is a text below `Gui`; the backend does not reload itself where that is switched
/// off below `Deploy` and `Update`. What is not there, or is of another kind, has its default.
pub proof fn what_is_read_of_a_configuration(
    config: JsonView,
    deploy: JsonView,
    webui: JsonView,
    update: JsonView,
    gui: JsonView,
)
    requires
        config.member("Deploy"@) == Some(deploy),
        config.member("Gui"@) == Some(gui),
        deploy.member("Webui"@) == Some(webui),
        deploy.member("Update"@) == Some(update),
    ensures
        ({
            let d = deployed(Some(config));
            let port = webui.member("WebuiPort"@);
            let language = gui.member("Language"@);
            let set = |name: Seq<char>|
                webui.member(name) is Some && webui.member(name)->0 is Str && webui.member(
                    name,
                )->0->Str_0.len() > 0;
            &&& d.webui_port == (if port is Some && port->0 is Number && port->0->Number_0 is Some {
                port->0->Number_0->0 as int % 65536
            } else {
                22267
            })
            &&& language is Some && language->0 is Str ==> d.language == Some(language->0->Str_0)
            &&& language is None || language->0 !is Str ==> d.language is None
            &&& !d.enable_reload <==> update.member("EnableReload"@) == Some(JsonView::Bool(false))
            &&& d.ws_control_available <==> !set("Password"@) && !set("WebuiSSLKey"@) && !set(
                "WebuiSSLCert"@,
            )
        }),
{
}

/// Where a part of the configuration is not there, what is below it has its default.
pub proof fn a_missing_part_has_the_defaults(config: JsonView, deploy: JsonView)
    ensures
        config.member("Gui"@) is None ==> deployed(Some(config)).language is None,
        config.member("Deploy"@) is None ==> {
            let d = deployed(Some(config));
            d.webui_port == 22267 && d.enable_reload && d.ws_control_available
        },
        config.member("Deploy"@) == Some(deploy) && deploy.member("Webui"@) is None ==> {
            let d = deployed(Some(config));
            d.webui_port == 22267 && d.ws_control_available
        },
        config.member("Deploy"@) == Some(deploy) && deploy.member("Update"@) is None ==> deployed(
            Some(config),
        ).enable_reload,
{
}

} // verus!
