//! The remote deck: which commands a browser may invoke, who may invoke
//! them, and when the server runs.
//!
//! Carrying a command out (reading and writing configuration, talking to the
//! display) is the program's part; this module decides.
use vstd::prelude::*;
use crate::text::{base64_padded, str_equal};

verus! {

/// A command the remote deck carries out.
#[derive(Clone, Copy, Debug, PartialEq, Eq, Structural)]
pub enum RemoteCommand {
    GetConfig,
    GetRemoteInfo,
    SetRemoteSecurity,
    GetActiveScreen,
    SaveConfig,
    ListScreens,
    SetQuickScreen,
    SaveScreen,
    LoadScreen,
    NewScreen,
    DeleteScreen,
    GetPreview,
    PreviewConfig,
    TestSensors,
    ListDisplays,
    ListSuperwidgets,
    StartRendering,
    StopRendering,
    GetStatus,
    RenderOnce,
    TestDisplay,
    SetDisplayBrightness,
    GetAutostart,
    SetAutostart,
}

/// The answer to a command that needs a file dialog.
pub open spec fn file_operation_message() -> Seq<char> {
    "This file operation is not available in Remote Deck yet. Use the Windows app."@
}

/// The answer to a command that does not exist.
pub open spec fn unsupported_message(name: Seq<char>) -> Seq<char> {
    "Unsupported Remote Deck command: "@ + name
}

/// Whether a command needs a file dialog, which the remote deck has not.
pub open spec fn is_file_operation(name: Seq<char>) -> bool {
    name == "select_background"@
    || name == "select_background_folder"@
    || name == "select_gif"@
    || name == "import_package"@
    || name == "export_package"@
    || name == "import_superwidget"@
}

/// What a command name asks for: a known command, or the error text answered.
pub open spec fn command_of(name: Seq<char>) -> Result<RemoteCommand, Seq<char>> {
    if name == "get_config"@ {
        Ok(RemoteCommand::GetConfig)
    } else if name == "get_remote_info"@ {
        Ok(RemoteCommand::GetRemoteInfo)
    } else if name == "set_remote_security"@ {
        Ok(RemoteCommand::SetRemoteSecurity)
    } else if name == "get_active_screen"@ {
        Ok(RemoteCommand::GetActiveScreen)
    } else if name == "save_config"@ {
        Ok(RemoteCommand::SaveConfig)
    } else if name == "list_screens"@ {
        Ok(RemoteCommand::ListScreens)
    } else if name == "set_quick_screen"@ {
        Ok(RemoteCommand::SetQuickScreen)
    } else if name == "save_screen"@ {
        Ok(RemoteCommand::SaveScreen)
    } else if name == "load_screen"@ {
        Ok(RemoteCommand::LoadScreen)
    } else if name == "new_screen"@ {
        Ok(RemoteCommand::NewScreen)
    } else if name == "delete_screen"@ {
        Ok(RemoteCommand::DeleteScreen)
    } else if name == "get_preview"@ {
        Ok(RemoteCommand::GetPreview)
    } else if name == "preview_config"@ {
        Ok(RemoteCommand::PreviewConfig)
    } else if name == "test_sensors"@ {
        Ok(RemoteCommand::TestSensors)
    } else if name == "list_displays"@ {
        Ok(RemoteCommand::ListDisplays)
    } else if name == "list_superwidgets"@ {
        Ok(RemoteCommand::ListSuperwidgets)
    } else if name == "start_rendering"@ {
        Ok(RemoteCommand::StartRendering)
    } else if name == "stop_rendering"@ {
        Ok(RemoteCommand::StopRendering)
    } else if name == "get_status"@ {
        Ok(RemoteCommand::GetStatus)
    } else if name == "render_once"@ {
        Ok(RemoteCommand::RenderOnce)
    } else if name == "test_display"@ {
        Ok(RemoteCommand::TestDisplay)
    } else if name == "set_display_brightness"@ {
        Ok(RemoteCommand::SetDisplayBrightness)
    } else if name == "get_autostart"@ {
        Ok(RemoteCommand::GetAutostart)
    } else if name == "set_autostart"@ {
        Ok(RemoteCommand::SetAutostart)
    } else if is_file_operation(name) {
        Err(file_operation_message())
    } else {
        Err(unsupported_message(name))
    }
}

/// The name by which the remote deck asks for a command.
pub open spec fn command_name(command: RemoteCommand) -> Seq<char> {
    match command {
        RemoteCommand::GetConfig => "get_config"@,
        RemoteCommand::GetRemoteInfo => "get_remote_info"@,
        RemoteCommand::SetRemoteSecurity => "set_remote_security"@,
        RemoteCommand::GetActiveScreen => "get_active_screen"@,
        RemoteCommand::SaveConfig => "save_config"@,
        RemoteCommand::ListScreens => "list_screens"@,
        RemoteCommand::SetQuickScreen => "set_quick_screen"@,
        RemoteCommand::SaveScreen => "save_screen"@,
        RemoteCommand::LoadScreen => "load_screen"@,
        RemoteCommand::NewScreen => "new_screen"@,
        RemoteCommand::DeleteScreen => "delete_screen"@,
        RemoteCommand::GetPreview => "get_preview"@,
        RemoteCommand::PreviewConfig => "preview_config"@,
        RemoteCommand::TestSensors => "test_sensors"@,
        RemoteCommand::ListDisplays => "list_displays"@,
        RemoteCommand::ListSuperwidgets => "list_superwidgets"@,
        RemoteCommand::StartRendering => "start_rendering"@,
        RemoteCommand::StopRendering => "stop_rendering"@,
        RemoteCommand::GetStatus => "get_status"@,
        RemoteCommand::RenderOnce => "render_once"@,
        RemoteCommand::TestDisplay => "test_display"@,
        RemoteCommand::SetDisplayBrightness => "set_display_brightness"@,
        RemoteCommand::GetAutostart => "get_autostart"@,
        RemoteCommand::SetAutostart => "set_autostart"@,
    }
}

/// Each command answers to its own name and to no other: a name reads as a
/// command exactly when it is that command's name, so distinct names never
/// give the same command and no command is read from another's name.
pub proof fn law_commands_answer_to_their_names(name: Seq<char>, command: RemoteCommand)
    ensures
        command_of(name) == Ok::<RemoteCommand, Seq<char>>(command) <==> name == command_name(command),
{
    // The names differ in length, or else at the position compared below.
    reveal_strlit("get_config");
    reveal_strlit("get_remote_info");
    reveal_strlit("set_remote_security");
    reveal_strlit("get_active_screen");
    reveal_strlit("save_config");
    reveal_strlit("list_screens");
    reveal_strlit("set_quick_screen");
    reveal_strlit("save_screen");
    reveal_strlit("load_screen");
    reveal_strlit("new_screen");
    reveal_strlit("delete_screen");
    reveal_strlit("get_preview");
    reveal_strlit("preview_config");
    reveal_strlit("test_sensors");
    reveal_strlit("list_displays");
    reveal_strlit("list_superwidgets");
    reveal_strlit("start_rendering");
    reveal_strlit("stop_rendering");
    reveal_strlit("get_status");
    reveal_strlit("render_once");
    reveal_strlit("test_display");
    reveal_strlit("set_display_brightness");
    reveal_strlit("get_autostart");
    reveal_strlit("set_autostart");
    assert("get_config"@.len() == 10);
    assert("get_remote_info"@.len() == 15);
    assert("set_remote_security"@.len() == 19);
    assert("get_active_screen"@.len() == 17);
    assert("save_config"@.len() == 11);
    assert("list_screens"@.len() == 12);
    assert("set_quick_screen"@.len() == 16);
    assert("save_screen"@.len() == 11);
    assert("load_screen"@.len() == 11);
    assert("new_screen"@.len() == 10);
    assert("delete_screen"@.len() == 13);
    assert("get_preview"@.len() == 11);
    assert("preview_config"@.len() == 14);
    assert("test_sensors"@.len() == 12);
    assert("list_displays"@.len() == 13);
    assert("list_superwidgets"@.len() == 17);
    assert("start_rendering"@.len() == 15);
    assert("stop_rendering"@.len() == 14);
    assert("get_status"@.len() == 10);
    assert("render_once"@.len() == 11);
    assert("test_display"@.len() == 12);
    assert("set_display_brightness"@.len() == 22);
    assert("get_autostart"@.len() == 13);
    assert("set_autostart"@.len() == 13);
    assert("get_config"@[0] != "new_screen"@[0]);
    assert("get_config"@[4] != "get_status"@[4]);
    assert("get_remote_info"@[0] != "start_rendering"@[0]);
    assert("get_active_screen"@[0] != "list_superwidgets"@[0]);
    assert("save_config"@[5] != "save_screen"@[5]);
    assert("save_config"@[0] != "load_screen"@[0]);
    assert("save_config"@[0] != "get_preview"@[0]);
    assert("save_config"@[0] != "render_once"@[0]);
    assert("list_screens"@[0] != "test_sensors"@[0]);
    assert("list_screens"@[0] != "test_display"@[0]);
    assert("save_screen"@[0] != "load_screen"@[0]);
    assert("save_screen"@[0] != "get_preview"@[0]);
    assert("save_screen"@[0] != "render_once"@[0]);
    assert("load_screen"@[0] != "get_preview"@[0]);
    assert("load_screen"@[0] != "render_once"@[0]);
    assert("new_screen"@[0] != "get_status"@[0]);
    assert("delete_screen"@[0] != "list_displays"@[0]);
    assert("delete_screen"@[0] != "get_autostart"@[0]);
    assert("delete_screen"@[0] != "set_autostart"@[0]);
    assert("get_preview"@[0] != "render_once"@[0]);
    assert("preview_config"@[0] != "stop_rendering"@[0]);
    assert("test_sensors"@[5] != "test_display"@[5]);
    assert("list_displays"@[0] != "get_autostart"@[0]);
    assert("list_displays"@[0] != "set_autostart"@[0]);
    assert("get_autostart"@[0] != "set_autostart"@[0]);
}

/// Reads a command name (see `command_of`).
pub fn parse_command(name: &str) -> (command: Result<RemoteCommand, String>)
    ensures
        match command {
            Ok(c) => command_of(name@) == Ok::<RemoteCommand, Seq<char>>(c),
            Err(e) => command_of(name@) == Err::<RemoteCommand, Seq<char>>(e@),
        },
{
    if str_equal(name, "get_config") {
        Ok(RemoteCommand::GetConfig)
    } else if str_equal(name, "get_remote_info") {
        Ok(RemoteCommand::GetRemoteInfo)
    } else if str_equal(name, "set_remote_security") {
        Ok(RemoteCommand::SetRemoteSecurity)
    } else if str_equal(name, "get_active_screen") {
        Ok(RemoteCommand::GetActiveScreen)
    } else if str_equal(name, "save_config") {
        Ok(RemoteCommand::SaveConfig)
    } else if str_equal(name, "list_screens") {
        Ok(RemoteCommand::ListScreens)
    } else if str_equal(name, "set_quick_screen") {
        Ok(RemoteCommand::SetQuickScreen)
    } else if str_equal(name, "save_screen") {
        Ok(RemoteCommand::SaveScreen)
    } else if str_equal(name, "load_screen") {
        Ok(RemoteCommand::LoadScreen)
    } else if str_equal(name, "new_screen") {
        Ok(RemoteCommand::NewScreen)
    } else if str_equal(name, "delete_screen") {
        Ok(RemoteCommand::DeleteScreen)
    } else if str_equal(name, "get_preview") {
        Ok(RemoteCommand::GetPreview)
    } else if str_equal(name, "preview_config") {
        Ok(RemoteCommand::PreviewConfig)
    } else if str_equal(name, "test_sensors") {
        Ok(RemoteCommand::TestSensors)
    } else if str_equal(name, "list_displays") {
        Ok(RemoteCommand::ListDisplays)
    } else if str_equal(name, "list_superwidgets") {
        Ok(RemoteCommand::ListSuperwidgets)
    } else if str_equal(name, "start_rendering") {
        Ok(RemoteCommand::StartRendering)
    } else if str_equal(name, "stop_rendering") {
        Ok(RemoteCommand::StopRendering)
    } else if str_equal(name, "get_status") {
        Ok(RemoteCommand::GetStatus)
    } else if str_equal(name, "render_once") {
        Ok(RemoteCommand::RenderOnce)
    } else if str_equal(name, "test_display") {
        Ok(RemoteCommand::TestDisplay)
    } else if str_equal(name, "set_display_brightness") {
        Ok(RemoteCommand::SetDisplayBrightness)
    } else if str_equal(name, "get_autostart") {
        Ok(RemoteCommand::GetAutostart)
    } else if str_equal(name, "set_autostart") {
        Ok(RemoteCommand::SetAutostart)
    } else if str_equal(name, "select_background")
        || str_equal(name, "select_background_folder")
        || str_equal(name, "select_gif")
        || str_equal(name, "import_package")
        || str_equal(name, "export_package")
        || str_equal(name, "import_superwidget") {
        Err(String::from_str("This file operation is not available in Remote Deck yet. Use the Windows app."))
    } else {
        let mut message = String::from_str("Unsupported Remote Deck command: ");
        message.append(name);
        Err(message)
    }
}

} // verus!

verus! {

/// What the supervisor of the remote deck server does on a tick.
#[derive(Clone, Copy, Debug, PartialEq, Eq, Structural)]
pub enum ServerAction {
    /// Spawn the server.
    Start,
    /// Signal the running server to shut down and wait for it.
    Stop,
    /// Nothing to change.
    Keep,
}

/// The supervisor's decision: start the server when the deck is enabled and
/// no server runs, stop it when the deck is disabled and one runs.
pub open spec fn server_action_of(enabled: bool, running: bool) -> ServerAction {
    if enabled && !running {
        ServerAction::Start
    } else if !enabled && running {
        ServerAction::Stop
    } else {
        ServerAction::Keep
    }
}

/// The supervisor's decision on a tick.
pub fn server_action(enabled: bool, running: bool) -> (action: ServerAction)
    ensures
        action == server_action_of(enabled, running),
{
    if enabled && !running {
        ServerAction::Start
    } else if !enabled && running {
        ServerAction::Stop
    } else {
        ServerAction::Keep
    }
}

/// Whether a server task that ended by itself is to be collected (and so
/// started again on a later tick if the deck is still enabled).
pub fn should_reap(running: bool, finished: bool) -> (reap: bool)
    ensures
        reap == (running && finished),
{
    running && finished
}

/// A server that is wanted is started, one that is not is stopped, and a
/// tick changes nothing when the server already is as wanted.
pub proof fn law_server_follows_setting(enabled: bool, running: bool)
    ensures
        server_action_of(enabled, running) == ServerAction::Start ==> enabled && !running,
        server_action_of(enabled, running) == ServerAction::Stop ==> !enabled && running,
        enabled == running ==> server_action_of(enabled, running) == ServerAction::Keep,
{
}

/// Whether rendering runs, and the last status message.
pub struct Status {
    running: bool,
    message: String,
}

impl Status {
    /// The status of a renderer that is or is not running.
    pub fn new(running: bool, message: String) -> (status: Status)
        ensures
            status.running() == running,
            status.message_text() == message@,
    {
        Status { running, message }
    }

    pub closed spec fn running(&self) -> bool {
        self.running
    }

    pub closed spec fn message_text(&self) -> Seq<char> {
        self.message@
    }

    /// Whether rendering runs.
    pub fn is_running(&self) -> (running: bool)
        ensures
            running == self.running(),
    {
        self.running
    }

    /// The last status message.
    pub fn message(&self) -> (message: &str)
        ensures
            message@ == self.message_text(),
    {
        self.message.as_str()
    }
}

} // verus!

verus! {

/// `general_purpose::STANDARD.encode`: standard base64 with `=` padding,
/// as `base64_padded` writes it out (the `STANDARD` engine pads on encoding).
#[verifier::external_body]
fn base64_encode(bytes: &[u8]) -> (text: String)
    ensures
        text@ == base64_padded(bytes@),
{
    base64::Engine::encode(&base64::engine::general_purpose::STANDARD, bytes)
}

/// A PNG picture as a `data:` URL that a browser shows directly.
pub fn preview_data_url(png: &[u8]) -> (url: String)
    ensures
        url@ == "data:image/png;base64,"@ + base64_padded(png@),
{
    let mut url = String::from_str("data:image/png;base64,");
    let encoded = base64_encode(png);
    url.append(encoded.as_str());
    url
}

} // verus!

verus! {

/// The script tag of the editor's translations.
pub open spec fn i18n_tag() -> Seq<char> {
    "<script src=\"i18n.js\"></script>"@
}

/// The tags that load the remote bridge before the translations.
pub open spec fn bridged_tags() -> Seq<char> {
    "<script src=\"remote-bridge.js\"></script>\n  <script src=\"i18n.js\"></script>"@
}

/// The editor's page as the remote deck serves it: the bridge script, which
/// sends the editor's commands over HTTP, is loaded before the translations.
pub fn remote_index_page(html: &str) -> (page: String)
    ensures
        page@ == crate::text::replace_all(html@, i18n_tag(), bridged_tags()),
{
    proof {
        reveal_strlit("<script src=\"i18n.js\"></script>");
    }
    crate::text::replace_str(
        html,
        "<script src=\"i18n.js\"></script>",
        "<script src=\"remote-bridge.js\"></script>\n  <script src=\"i18n.js\"></script>",
    )
}

} // verus!
