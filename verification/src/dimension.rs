use vstd::prelude::*;

use crate::digits::{dec_rep, u16_to_string};
use crate::error::ConfigError;

verus! {

/// A requested image size: it fixes both the remote image dimensions and the
/// name of the local subdirectory the images are saved under.
#[derive(Clone, Copy, PartialEq, Eq, Structural, Debug)]
pub struct Dimension {
    pub width: u16,
    pub height: u16,
}

/// The canonical subdirectory name for a dimension: `{width}x{height}`.
pub open spec fn dir_name_spec(d: Dimension) -> Seq<char> {
    dec_rep(d.width as nat) + seq!['x'] + dec_rep(d.height as nat)
}

/// The canonical remote URL for a dimension:
/// `https://picsum.photos/{width}/{height}`.
pub open spec fn url_spec(d: Dimension) -> Seq<char> {
    "https://picsum.photos/"@ + dec_rep(d.width as nat) + seq!['/'] + dec_rep(d.height as nat)
}

/// The directory images for dimension `d` are saved under, given an optional
/// base directory and the optionally resolved home directory: the base
/// directory joined with the subdirectory name when a base is given, the home
/// `Downloads` folder joined with it when only a home is known, and nothing
/// when neither is available.
pub open spec fn resolved_dir_spec(
    d: Dimension,
    base: Option<Seq<char>>,
    home: Option<Seq<char>>,
) -> Option<Seq<char>> {
    if base is Some {
        Some(base->Some_0 + seq!['/'] + dir_name_spec(d))
    } else if home is Some {
        Some(home->Some_0 + "/Downloads/"@ + dir_name_spec(d))
    } else {
        None
    }
}

/// Relies on homedir::my_home for the platform home directory; yields `None`
/// when it cannot be determined or is not valid text. The result depends on
/// the running environment, so nothing is stated of it.
#[verifier::external_body]
fn system_home() -> (r: Option<String>) {
    match homedir::my_home() {
        Ok(Some(p)) => p.to_str().map(|s| s.to_string()),
        _ => None,
    }
}

impl Dimension {
    pub fn new(width: u16, height: u16) -> (d: Dimension)
        ensures
            d.width == width,
            d.height == height,
    {
        Dimension { width, height }
    }

    /// Renders the subdirectory name `{width}x{height}`.
    pub fn dir_name(&self) -> (s: String)
        ensures
            s@ == dir_name_spec(*self),
    {
        let mut s = u16_to_string(self.width);
        let sep = "x";
        proof {
            reveal_strlit("x");
            assert(sep@ =~= seq!['x']);
        }
        s.append(sep);
        let h = u16_to_string(self.height);
        s.append(h.as_str());
        s
    }

    /// Renders the remote URL `https://picsum.photos/{width}/{height}`.
    pub fn url(&self) -> (s: String)
        ensures
            s@ == url_spec(*self),
    {
        let mut s = String::from_str("https://picsum.photos/");
        let w = u16_to_string(self.width);
        s.append(w.as_str());
        let sep = "/";
        proof {
            reveal_strlit("/");
            assert(sep@ =~= seq!['/']);
        }
        s.append(sep);
        let h = u16_to_string(self.height);
        s.append(h.as_str());
        proof {
            assert(s@ =~= url_spec(*self));
        }
        s
    }

    /// Computes the directory to save into from the given base and home
    /// directories, exactly as `resolved_dir_spec` says; the only failure is
    /// an unresolvable save location, when neither is available.
    pub fn resolve_directory(&self, base: &Option<String>, home: &Option<String>) -> (r: Result<
        String,
        ConfigError,
    >)
        ensures
            match r {
                Ok(p) => {
                    &&& resolved_dir_spec(*self, opt_str_view(*base), opt_str_view(*home))
                        is Some
                    &&& p@ == resolved_dir_spec(
                        *self,
                        opt_str_view(*base),
                        opt_str_view(*home),
                    )->Some_0
                },
                Err(e) => {
                    &&& base is None
                    &&& home is None
                    &&& e == ConfigError::HomeDirectoryUnresolved
                },
            },
    {
        let name = self.dir_name();
        match base {
            Some(b) => {
                let mut p = b.clone();
                let sep = "/";
                proof {
                    reveal_strlit("/");
                    assert(sep@ =~= seq!['/']);
                }
                p.append(sep);
                p.append(name.as_str());
                Ok(p)
            },
            None => {
                match home {
                    Some(h) => {
                        let mut p = h.clone();
                        p.append("/Downloads/");
                        p.append(name.as_str());
                        Ok(p)
                    },
                    None => Err(ConfigError::HomeDirectoryUnresolved),
                }
            },
        }
    }

    /// The directory images for this dimension are saved under. With a base
    /// directory the answer is fixed by `resolved_dir_spec`; without one the
    /// platform home directory decides, and every outcome either names a
    /// `Downloads` folder under some home or reports the location
    /// unresolvable.
    pub fn get_download_dir(&self, dir: Option<String>) -> (r: Result<String, ConfigError>)
        ensures
            dir is Some ==> {
                &&& r is Ok
                &&& r->Ok_0@ == dir->Some_0@ + seq!['/'] + dir_name_spec(*self)
            },
            dir is None ==> match r {
                Ok(p) => exists|h: Seq<char>| p@ == h + "/Downloads/"@ + dir_name_spec(*self),
                Err(e) => e == ConfigError::HomeDirectoryUnresolved,
            },
    {
        match dir {
            Some(b) => self.resolve_directory(&Some(b), &None),
            None => {
                let home = system_home();
                let r = self.resolve_directory(&None, &home);
                proof {
                    if home is Some && r is Ok {
                        assert(r->Ok_0@ == home->Some_0@ + "/Downloads/"@ + dir_name_spec(*self));
                    }
                }
                r
            },
        }
    }
}

/// The view of an optional string as an optional character sequence.
pub open spec fn opt_str_view(o: Option<String>) -> Option<Seq<char>> {
    match o {
        Some(s) => Some(s@),
        None => None,
    }
}

/// The resolver is deterministic: two results that both meet its contract on
/// the same dimension, base and home are the same path.
pub proof fn lemma_resolve_deterministic(
    d: Dimension,
    base: Option<Seq<char>>,
    home: Option<Seq<char>>,
    first: Seq<char>,
    second: Seq<char>,
)
    requires
        resolved_dir_spec(d, base, home) is Some,
        first == resolved_dir_spec(d, base, home)->Some_0,
        second == resolved_dir_spec(d, base, home)->Some_0,
    ensures
        first == second,
{
}

} // verus!
