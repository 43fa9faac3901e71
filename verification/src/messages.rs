//! The sentences of the program that are shown in the user's language.

use crate::text::replace;
#[allow(unused_imports)]
use crate::text::replaced;
use vstd::prelude::*;

verus! {

/// The sentences. Where one holds `{}`, a value stands in that place.
#[derive(Debug, Clone)]
pub struct Messages {
    pub none: String,
    pub build: String,
    pub target_packages: String,
    pub dependencies: String,
    pub aur_packages: String,
    pub repo_packages: String,
    pub package: String,
    pub version: String,
    pub download: String,
    pub details: String,
    pub description: String,
    pub package_changes: String,
    pub to_install: String,
    pub to_update: String,
    pub to_remove: String,
    pub zero_bytes: String,
    pub size_of_aur: String,
    pub total_download: String,
    pub build_sizes: String,
    pub status_installed: String,
    pub status_installed_as: String,
    pub status_out_of_date: String,
    pub status_orphaned: String,
    pub installed: String,
    pub installed_as: String,
    pub line_installed: String,
    pub name: String,
    pub repo_version: String,
    pub status: String,
    pub available: String,
    pub failed_to_run: String,
    pub pacman_in_use: String,
    pub ask_install: String,
    pub ask_select: String,
    pub nothing_to_do: String,
    pub no_match: String,
    pub aur_search_failed: String,
    pub list_not_decoded: String,
}

/// A sentence with its value.
pub open spec fn filled(template: Seq<char>, value: Seq<char>) -> Seq<char> {
    replaced(template, "{}"@, value)
}

/// A sentence with its value.
pub fn fill(template: &str, value: &str) -> (r: String)
    ensures
        r@ == filled(template@, value@),
{
    replace(template, "{}", value)
}

/// Whether the sentences are those in English.
pub open spec fn is_english(m: Messages) -> bool {
    &&& m.none@ == "None"@
    &&& m.build@ == "Build"@
    &&& m.target_packages@ == "Target Packages"@
    &&& m.dependencies@ == "Dependencies"@
    &&& m.aur_packages@ == "AUR Packages"@
    &&& m.repo_packages@ == "Repo Packages"@
    &&& m.package@ == "Package"@
    &&& m.version@ == "Version"@
    &&& m.download@ == "Download"@
    &&& m.details@ == "Details"@
    &&& m.description@ == "Description"@
    &&& m.package_changes@ == "Package changes"@
    &&& m.to_install@ == "Packages to install ({}):"@
    &&& m.to_update@ == "Packages to update ({}):"@
    &&& m.to_remove@ == "Packages to remove ({}):"@
    &&& m.zero_bytes@ == "0 B"@
    &&& m.size_of_aur@ == "— (AUR)"@
    &&& m.total_download@ == "Total download size: {}"@
    &&& m.build_sizes@ == "* AUR / local build sizes are applied when packages are built and installed."@
    &&& m.status_installed@ == "[installed]"@
    &&& m.status_installed_as@ == "[installed: {}]"@
    &&& m.status_out_of_date@ == " ood:{}"@
    &&& m.status_orphaned@ == " [orphaned]"@
    &&& m.installed@ == "installed"@
    &&& m.installed_as@ == "installed: {}"@
    &&& m.line_installed@ == " [installed]"@
    &&& m.name@ == "Name"@
    &&& m.repo_version@ == "Repo Version"@
    &&& m.status@ == "Status"@
    &&& m.available@ == "Available repository packages"@
    &&& m.failed_to_run@ == "failed to run:"@
    &&& m.pacman_in_use@ == "Pacman is currently in use, please wait..."@
    &&& m.ask_install@ == "Packages to install (eg: 1 2 3, 1-3):"@
    &&& m.ask_select@ == "Select packages (eg: 1 2 3, 1-3):"@
    &&& m.nothing_to_do@ == " there is nothing to do"@
    &&& m.no_match@ == "no packages match search"@
    &&& m.aur_search_failed@ == "aur search failed"@
    &&& m.list_not_decoded@ == "failed to decode package list"@
}

impl Default for Messages {
    /// The sentences in English.
    fn default() -> (r: Messages)
        ensures
            is_english(r),
    {
        Messages {
            none: "None".to_owned(),
            build: "Build".to_owned(),
            target_packages: "Target Packages".to_owned(),
            dependencies: "Dependencies".to_owned(),
            aur_packages: "AUR Packages".to_owned(),
            repo_packages: "Repo Packages".to_owned(),
            package: "Package".to_owned(),
            version: "Version".to_owned(),
            download: "Download".to_owned(),
            details: "Details".to_owned(),
            description: "Description".to_owned(),
            package_changes: "Package changes".to_owned(),
            to_install: "Packages to install ({}):".to_owned(),
            to_update: "Packages to update ({}):".to_owned(),
            to_remove: "Packages to remove ({}):".to_owned(),
            zero_bytes: "0 B".to_owned(),
            size_of_aur: "— (AUR)".to_owned(),
            total_download: "Total download size: {}".to_owned(),
            build_sizes: "* AUR / local build sizes are applied when packages are built and installed.".to_owned(),
            status_installed: "[installed]".to_owned(),
            status_installed_as: "[installed: {}]".to_owned(),
            status_out_of_date: " ood:{}".to_owned(),
            status_orphaned: " [orphaned]".to_owned(),
            installed: "installed".to_owned(),
            installed_as: "installed: {}".to_owned(),
            line_installed: " [installed]".to_owned(),
            name: "Name".to_owned(),
            repo_version: "Repo Version".to_owned(),
            status: "Status".to_owned(),
            available: "Available repository packages".to_owned(),
            failed_to_run: "failed to run:".to_owned(),
            pacman_in_use: "Pacman is currently in use, please wait...".to_owned(),
            ask_install: "Packages to install (eg: 1 2 3, 1-3):".to_owned(),
            ask_select: "Select packages (eg: 1 2 3, 1-3):".to_owned(),
            nothing_to_do: " there is nothing to do".to_owned(),
            no_match: "no packages match search".to_owned(),
            aur_search_failed: "aur search failed".to_owned(),
            list_not_decoded: "failed to decode package list".to_owned(),
        }
    }
}

} // verus!
