//! The multiplexer layout that this tool starts with, and where it lives.

use vstd::prelude::*;

use crate::text::{join, join_path};

verus! {

/// The layout: a tab bar, this tool's top bar, this tool's panel beside a
/// focused shell, and a status bar.
pub const LAYOUT_TEMPLATE: &'static str = "layout {\n    pane size=1 borderless=true {\n        plugin location=\"zellij:tab-bar\"\n    }\n\n    pane size=1 borderless=true command=\"gzc\" {\n        args \"top-bar\"\n    }\n\n    pane split_direction=\"vertical\" {\n        pane size=40 command=\"gzc\" {\n            args \"panel\"\n        }\n        pane focus=true command=\"bash\"\n    }\n\n    pane size=1 borderless=true {\n        plugin location=\"zellij:status-bar\"\n    }\n}\n";

/// Relies on `dirs::home_dir`: the user's home directory, if it can be
/// found. It depends on the environment.
#[verifier::external_body]
fn user_home_dir() -> (r: Option<String>) {
    match dirs::home_dir() {
        Some(p) => Some(p.to_string_lossy().into_owned()),
        None => None,
    }
}

/// The multiplexer's layout directory, `.config/zellij/layouts` under the
/// home directory; none when there is no home directory.
pub fn layouts_dir() -> (r: Option<String>)
    ensures
        r matches Some(d) ==> exists|h: Seq<char>| d@ == join_path(join_path(join_path(h, ".config"@), "zellij"@), "layouts"@),
{
    match user_home_dir() {
        Some(h) => {
            let c = join(h.as_str(), ".config");
            let z = join(c.as_str(), "zellij");
            Some(join(z.as_str(), "layouts"))
        },
        None => None,
    }
}

/// The layout file, `gzc.kdl` in the layout directory.
pub fn layout_path() -> (r: Option<String>)
    ensures
        r matches Some(p) ==> exists|h: Seq<char>| p@ == join_path(
            join_path(join_path(join_path(h, ".config"@), "zellij"@), "layouts"@),
            "gzc.kdl"@,
        ),
{
    match layouts_dir() {
        Some(d) => Some(join(d.as_str(), "gzc.kdl")),
        None => None,
    }
}

} // verus!
