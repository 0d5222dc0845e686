//! What the `infos` command prints.

use crate::text::{decimal, join, join_all, push_decimal, push_text};
use vstd::prelude::*;

verus! {

/// The flags of the `infos` command.
#[derive(Debug, Clone)]
pub struct Infos {
    /// List all plugins.
    pub plugins: bool,
    /// Display the configuration.
    pub config: bool,
}

/// What `infos` is asked to show.
#[derive(Debug, Clone, Copy, PartialEq, Eq, Structural)]
pub enum InfoRequest {
    Plugins,
    Config,
    /// Neither flag was given.
    Nothing,
}

/// One line per plugin: two spaces, a dash, a space, the name.
pub open spec fn plugin_lines(names: Seq<Seq<char>>) -> Seq<Seq<char>> {
    Seq::new(names.len(), |i: int| "  - "@ + names[i])
}

/// The listing of the installed plugins: a header with their number, then
/// one line per plugin.
pub open spec fn plugin_listing(names: Seq<Seq<char>>) -> Seq<char> {
    "Installed Plugins ("@ + decimal(names.len()) + "):\n"@ + join(plugin_lines(names), seq!['\n'])
}

impl Infos {
    /// What to show: the plugins where that flag is set, else the
    /// configuration where its flag is set, else nothing.
    pub fn display(&self) -> (request: InfoRequest)
        ensures
            request == if self.plugins {
                InfoRequest::Plugins
            } else if self.config {
                InfoRequest::Config
            } else {
                InfoRequest::Nothing
            },
    {
        if self.plugins {
            InfoRequest::Plugins
        } else if self.config {
            InfoRequest::Config
        } else {
            InfoRequest::Nothing
        }
    }

    /// The listing of the installed plugins.
    pub fn list_plugins(names: &Vec<String>) -> (listing: String)
        ensures
            listing@ == plugin_listing(names.deep_view()),
    {
        let mut lines: Vec<String> = Vec::new();
        let mut i: usize = 0;
        assert(lines.deep_view() =~= plugin_lines(names.deep_view()).take(0));
        while i < names.len()
            invariant
                i <= names.len(),
                lines.deep_view() == plugin_lines(names.deep_view()).take(i as int),
            decreases names.len() - i,
        {
            let ghost before = lines.deep_view();
            let mut line = String::new();
            push_text(&mut line, "  - ");
            push_text(&mut line, names[i].as_str());
            lines.push(line);
            assert(lines.deep_view() =~= before.push("  - "@ + names@[i as int]@));
            assert(lines.deep_view() =~= plugin_lines(names.deep_view()).take(i + 1));
            i += 1;
        }
        assert(plugin_lines(names.deep_view()).take(names.len() as int) == plugin_lines(
            names.deep_view(),
        ));
        let mut listing = String::new();
        push_text(&mut listing, "Installed Plugins (");
        push_decimal(&mut listing, names.len());
        push_text(&mut listing, "):\n");
        let body = join_all(&lines, "\n");
        proof {
            reveal_strlit("\n");
            assert("\n"@ =~= seq!['\n']);
        }
        push_text(&mut listing, body.as_str());
        listing
    }
}

} // verus!
