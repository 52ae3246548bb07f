//! Assets that a page refers to.

use vstd::prelude::*;
use vstd::string::*;

verus! {

/// How an asset is loaded.
#[derive(Clone, Debug)]
pub struct AssetOptions {
    pub path: String,
    pub defer: bool,
    pub _async: bool,
}

impl Default for AssetOptions {
    fn default() -> (r: Self)
        ensures
            r.path@ == Seq::<char>::empty(),
            !r.defer,
            !r._async,
    {
        AssetOptions { path: String::new(), defer: false, _async: false }
    }
}

impl AssetOptions {
    /// Options for `path`, loaded at once.
    pub fn new(path: &str) -> (r: Self)
        ensures
            r.path@ == path@,
            !r.defer,
            !r._async,
    {
        AssetOptions { path: String::from_str(path), defer: false, _async: false }
    }

    /// Options for `path`, loaded deferred.
    pub fn with_defer(path: &str) -> (r: Self)
        ensures
            r.path@ == path@,
            r.defer,
            !r._async,
    {
        AssetOptions { path: String::from_str(path), defer: true, _async: false }
    }
}

/// An asset of one of four kinds, with its options.
#[derive(Clone, Debug)]
pub enum Asset {
    Script(AssetOptions),
    Style(AssetOptions),
    Link(AssetOptions),
    Image(AssetOptions),
}

impl Asset {
    /// The options of an asset, whatever its kind.
    pub open spec fn options(self) -> AssetOptions {
        match self {
            Asset::Script(o) => o,
            Asset::Style(o) => o,
            Asset::Link(o) => o,
            Asset::Image(o) => o,
        }
    }

    /// The options of the asset.
    pub fn get_options(&self) -> (r: &AssetOptions)
        ensures
            *r == self.options(),
    {
        match self {
            Asset::Script(options) => options,
            Asset::Style(options) => options,
            Asset::Link(options) => options,
            Asset::Image(options) => options,
        }
    }
}

} // verus!
