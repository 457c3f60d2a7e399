//! Code for assisting with the updating process

use vstd::prelude::*;

verus! {

/// Structure for the required portions of github releases
#[derive(Debug)]
pub struct GitHubRelease {
    /// The URL for viewing the release in the browser
    pub html_url: String,
    /// The release tag / version
    pub tag_name: String,
    /// The name of the release (Usually the same as tag_name)
    pub name: String,
    /// The date & time the release was published
    pub published_at: String,
    /// The release assets
    pub assets: Vec<GitHubReleaseAsset>,
}

/// Represents an asset from github releases that can be downloaded
#[derive(Debug)]
pub struct GitHubReleaseAsset {
    /// The name of the file
    pub name: String,
    /// URL for downloading the file
    pub browser_download_url: String,
}

/// Provides the URL of the latest release on github
///
/// ## Arguments
/// * `repository` - The repository to get the latest release for (e.g "PocketRelay/Client")
pub fn latest_release_url(repository: &str) -> (url: String)
    ensures
        url@ == "https://api.github.com/repos/"@ + repository@ + "/releases/latest"@,
{
    let mut url = "https://api.github.com/repos/".to_string();
    url.append(repository);
    url.append("/releases/latest");
    url
}

} // verus!
