//! What the desktop app shows natively: menu and dialog texts, and the
//! dialogs and dock icon of platforms that have none of their own here.

use vstd::prelude::*;

verus! {

/// The texts of the native menu and dialogs.
#[derive(Debug, Clone)]
pub struct NativeUiStrings {
    pub preferences: String,
    pub window: String,
    pub pick_images: String,
    pub pick_save_folder: String,
}

impl Default for NativeUiStrings {
    fn default() -> (r: Self)
        ensures
            r.preferences@.len() == 0,
            r.window@.len() == 0,
            r.pick_images@.len() == 0,
            r.pick_save_folder@.len() == 0,
    {
        NativeUiStrings {
            preferences: String::new(),
            window: String::new(),
            pick_images: String::new(),
            pick_save_folder: String::new(),
        }
    }
}

impl NativeUiStrings {
    /// The English texts, used until the window sends its own.
    pub fn english_defaults() -> (r: Self)
        ensures
            r.preferences@ == "Preferences…"@,
            r.window@ == "Window"@,
            r.pick_images@ == "Choose images or folders"@,
            r.pick_save_folder@ == "Choose a save folder"@,
    {
        NativeUiStrings {
            preferences: "Preferences…".to_owned(),
            window: "Window".to_owned(),
            pick_images: "Choose images or folders".to_owned(),
            pick_save_folder: "Choose a save folder".to_owned(),
        }
    }
}

/// The texts currently in use.
pub struct NativeUiState {
    pub strings: NativeUiStrings,
}

impl Default for NativeUiState {
    fn default() -> (r: Self)
        ensures
            r.strings.preferences@ == "Preferences…"@,
            r.strings.window@ == "Window"@,
            r.strings.pick_images@ == "Choose images or folders"@,
            r.strings.pick_save_folder@ == "Choose a save folder"@,
    {
        NativeUiState { strings: NativeUiStrings::english_defaults() }
    }
}

/// The answer to a request to install the Finder Quick Action.
#[derive(Debug, Clone)]
pub struct InstallQuickActionResult {
    pub ok: bool,
    pub message: String,
}

impl InstallQuickActionResult {
    /// The answer to a successful installation, with how to use the action.
    pub fn installed() -> (r: Self)
        ensures
            r.ok,
            r.message@ == "Finder Quick Action installed.\n\nSelect images or a folder in Finder, then use Quick Actions → Optimize with DropSlim.\n\nIf it does not appear right away, check System Settings → Privacy & Security → Extensions → Finder."@,
    {
        InstallQuickActionResult {
            ok: true,
            message: "Finder Quick Action installed.\n\nSelect images or a folder in Finder, then use Quick Actions → Optimize with DropSlim.\n\nIf it does not appear right away, check System Settings → Privacy & Security → Extensions → Finder.".to_owned(),
        }
    }

    /// The answer to a failed installation, with its reason.
    pub fn failed(message: String) -> (r: Self)
        ensures
            !r.ok,
            r.message@ == message@,
    {
        InstallQuickActionResult { ok: false, message }
    }

    /// The title of the dialog that shows the answer.
    pub fn dialog_title(&self) -> (r: &'static str)
        ensures
            r@ == if self.ok { "Finder Quick Action installed"@ } else { "Installation failed"@ },
    {
        if self.ok { "Finder Quick Action installed" } else { "Installation failed" }
    }
}

/// The native file picker. Only macOS has one; elsewhere this fails.
pub fn pick_paths() -> (r: Result<Vec<String>, String>)
    ensures
        r matches Err(m) && m@ == "pick_paths is only supported on macOS"@,
{
    Err("pick_paths is only supported on macOS".to_owned())
}

/// The native folder picker. Only macOS has one; elsewhere this fails.
pub fn pick_save_folder() -> (r: Result<Vec<String>, String>)
    ensures
        r matches Err(m) && m@ == "pick_save_folder is only supported on macOS"@,
{
    Err("pick_save_folder is only supported on macOS".to_owned())
}

/// Sets the dock icon. Only macOS has a dock; elsewhere this does nothing.
pub fn set_dock_icon() {
}

} // verus!
