//! The configuration of a run: where the manifests are.

use crate::package::texts;
use crate::providers::text_of;
use vstd::prelude::*;
use vstd::string::StringExecFns;

verus! {

/// What the configuration file holds.
#[derive(Debug)]
pub struct Config {
    /// The places where manifests are looked for, in order.
    pub manifests: Vec<String>,
}

impl Default for Config {
    /// The configuration that names no place.
    fn default() -> (config: Config)
        ensures
            config.manifests@.len() == 0,
    {
        Config { manifests: Vec::new() }
    }
}

/// Whether a character is white space: one of the 25 characters that have
/// the Unicode property White_Space.
pub open spec fn white_space(c: char) -> bool {
    let n = c as u32;
    ||| 0x09 <= n <= 0x0D
    ||| n == 0x20
    ||| n == 0x85
    ||| n == 0xA0
    ||| n == 0x1680
    ||| 0x2000 <= n <= 0x200A
    ||| n == 0x2028
    ||| n == 0x2029
    ||| n == 0x202F
    ||| n == 0x205F
    ||| n == 0x3000
}

/// `char::is_whitespace`: whether the character has the Unicode property
/// White_Space.
#[verifier::external_body]
fn is_whitespace(c: char) -> (b: bool)
    ensures
        b == white_space(c),
{
    c.is_whitespace()
}

/// Whether a text holds nothing but white space.
pub open spec fn blank(text: Seq<char>) -> bool {
    forall|i: int| 0 <= i < text.len() ==> white_space(#[trigger] text[i])
}

/// Whether a configuration file holds nothing but white space. Such a file
/// stands for the default configuration and is not parsed.
pub fn is_blank(text: &str) -> (b: bool)
    ensures
        b == blank(text@),
{
    let n = text.unicode_len();
    let mut i: usize = 0;
    while i < n
        invariant
            n == text@.len(),
            i <= n,
            forall|j: int| 0 <= j < i ==> white_space(#[trigger] text@[j]),
        decreases n - i,
    {
        if !is_whitespace(text.get_char(i)) {
            return false;
        }
        i += 1;
    }
    true
}

/// The places where manifests are looked for.
///
/// A place given on the command line replaces all others. Without one, the
/// places are those of the configuration file; a file that names none stands
/// for the current directory. Without a file there is no place.
pub open spec fn configured_manifests(
    found: Option<Seq<Seq<char>>>,
    manifest_location: Option<Seq<char>>,
) -> Seq<Seq<char>> {
    match manifest_location {
        Some(location) => seq![location],
        None => match found {
            Some(manifests) => if manifests.len() == 0 {
                seq!["."@]
            } else {
                manifests
            },
            None => Seq::empty(),
        },
    }
}

/// The places that a configuration file names, if there is a file.
pub open spec fn places(found: Option<Config>) -> Option<Seq<Seq<char>>> {
    match found {
        Some(config) => Some(texts(config.manifests@)),
        None => None,
    }
}

/// The configuration of a run, from what the configuration file holds, if one
/// was found, and the place given on the command line, if one was given.
pub fn load_config(found: Option<Config>, manifest_location: Option<String>) -> (config: Config)
    ensures
        texts(config.manifests@) == configured_manifests(places(found), text_of(manifest_location)),
{
    let mut config = match found {
        Some(mut config) => {
            if config.manifests.len() == 0 {
                config.manifests.push(String::from_str("."));
                assert(texts(config.manifests@) =~= seq!["."@]);
            }
            config
        },
        None => Config::default(),
    };
    match manifest_location {
        Some(location) => {
            let mut manifests: Vec<String> = Vec::new();
            manifests.push(location);
            assert(texts(manifests@) =~= seq![location@]);
            config.manifests = manifests;
        },
        None => {
            assert(texts(config.manifests@) =~= configured_manifests(places(found), None));
        },
    }
    config
}

} // verus!
