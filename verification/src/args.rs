//! Command line defaults and the receiver formats.

use vstd::prelude::*;

verus! {

/// The format that a receiver reads.
#[derive(Debug, Clone, Copy, PartialEq, Eq, Structural)]
pub enum Format {
    CapnP,
    Json,
}

/// Whether the receiver of `receiver` format runs: a receiver runs where no
/// format is chosen, and otherwise only the one of the chosen format, so that
/// the proxy never receives both formats when one is chosen.
pub open spec fn receiver_enabled_spec(chosen: Option<Format>, receiver: Format) -> bool {
    match chosen {
        Some(f) => f == receiver,
        None => true,
    }
}

/// Whether the receiver of `receiver` format runs, given the format chosen
/// in the config (`receiver.format`), if any.
pub fn receiver_enabled(chosen: Option<Format>, receiver: Format) -> (r: bool)
    ensures
        r == receiver_enabled_spec(chosen, receiver),
{
    match chosen {
        Some(f) => f == receiver,
        None => true,
    }
}

/// What the command line reports about the program, and the config file it
/// reads unless told otherwise.
pub struct Args<'a> {
    pub version: &'a str,
    pub author: &'a str,
    pub about: &'a str,
    pub default_config_file: String,
}

impl<'a> Args<'a> {
    /// The arguments of a build with the given version and author, whose
    /// default config file is `config.toml` in the directory `manifest_dir`.
    pub fn new(version: &'a str, author: &'a str, manifest_dir: &str) -> (r: Args<'a>)
        ensures
            r.version == version,
            r.author == author,
            r.about@ == "A lightweight asynchronous exporter proxy that receives data over a unix socket in Capn'Proto, combines everything and exposes it as an http scrape endpoint"@,
            r.default_config_file@ == manifest_dir@ + "/config.toml"@,
    {
        let mut default_config_file = manifest_dir.to_owned();
        default_config_file.append("/config.toml");
        Args {
            version,
            author,
            about: "A lightweight asynchronous exporter proxy that receives data over a unix socket in Capn'Proto, combines everything and exposes it as an http scrape endpoint",
            default_config_file,
        }
    }
}

/// With a format chosen, exactly that format's receiver runs; with none
/// chosen, both run.
pub proof fn lemma_chosen_format_runs_alone(chosen: Format, other: Format)
    ensures
        receiver_enabled_spec(Some(chosen), chosen),
        other != chosen ==> !receiver_enabled_spec(Some(chosen), other),
        receiver_enabled_spec(None, chosen),
        receiver_enabled_spec(None, other),
{
}

} // verus!
