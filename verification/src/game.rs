//! The resolved per-title records: one `Game` per locally installed title
//! the remote listing has content for, each owning the download entries
//! whose declared version its installed update accepts.

use vstd::prelude::*;

verus! {

/// One file to retrieve for a title: the raw-content URL to fetch and the
/// path under the title's install root at which the file must land.
pub struct ModDownloadEntry {
    pub download_url: String,
    pub mod_relative_path: String,
}

/// The mathematical value of a [`ModDownloadEntry`].
#[verifier::ext_equal]
pub struct ModDownloadEntryView {
    pub download_url: Seq<char>,
    pub mod_relative_path: Seq<char>,
}

impl View for ModDownloadEntry {
    type V = ModDownloadEntryView;

    open spec fn view(&self) -> ModDownloadEntryView {
        ModDownloadEntryView {
            download_url: self.download_url@,
            mod_relative_path: self.mod_relative_path@,
        }
    }
}

impl DeepView for ModDownloadEntry {
    type V = ModDownloadEntryView;

    open spec fn deep_view(&self) -> ModDownloadEntryView {
        self.view()
    }
}

/// One locally installed title together with the remote content resolved
/// for it. `title_version` is the installed update's version; `None` means
/// the base game alone is installed. `mod_data_location` is the directory
/// under the install root into which this title's mods land.
pub struct Game {
    pub title_id: String,
    pub title_name: String,
    pub title_version: Option<String>,
    pub mod_data_location: String,
    pub mod_download_entries: Vec<ModDownloadEntry>,
}

/// The mathematical value of a [`Game`].
#[verifier::ext_equal]
pub struct GameView {
    pub title_id: Seq<char>,
    pub title_name: Seq<char>,
    pub title_version: Option<Seq<char>>,
    pub mod_data_location: Seq<char>,
    pub mod_download_entries: Seq<ModDownloadEntryView>,
}

impl View for Game {
    type V = GameView;

    open spec fn view(&self) -> GameView {
        GameView {
            title_id: self.title_id@,
            title_name: self.title_name@,
            title_version: self.title_version.deep_view(),
            mod_data_location: self.mod_data_location@,
            mod_download_entries: self.mod_download_entries.deep_view(),
        }
    }
}

impl DeepView for Game {
    type V = GameView;

    open spec fn deep_view(&self) -> GameView {
        self.view()
    }
}

} // verus!
