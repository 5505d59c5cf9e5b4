//! The `cdt` bundle command: its arguments, the bundle manifest, and the
//! text it prints.

use vstd::prelude::*;


verus! {

/// `cdt`: an optional subcommand.
#[derive(Debug, Clone, Copy, PartialEq, Eq, Structural)]
pub struct Cli {
    pub command: Option<Command>,
}

/// The `cdt` subcommands.
#[derive(Debug, Clone, Copy, PartialEq, Eq, Structural)]
pub enum Command {
    /// Bundle and component versions.
    Version { json: bool },
    /// The bundled utilities.
    List { json: bool },
}

/// The bundle manifest.
#[derive(Debug, Clone, PartialEq, Eq)]
pub struct Manifest {
    pub bundle: Bundle,
    pub components: Vec<Component>,
}

/// The bundle's name and version.
#[derive(Debug, Clone, PartialEq, Eq)]
pub struct Bundle {
    pub name: String,
    pub version: String,
}

/// One bundled utility.
#[derive(Debug, Clone, PartialEq, Eq)]
pub struct Component {
    pub name: String,
    pub crate_name: String,
    pub binary: String,
    pub version: String,
    pub description: String,
}

/// What `cdt` prints.
#[derive(Debug, Clone, Copy, PartialEq, Eq, Structural)]
pub enum CdtOutput {
    /// The bundle line, then each component indented.
    VersionText,
    /// The whole manifest as JSON.
    VersionJson,
    /// One line per component.
    ListText,
    /// The components as JSON.
    ListJson,
}

/// No subcommand prints the versions as text.
pub fn cdt_output(command: Option<Command>) -> (r: CdtOutput)
    ensures
        r == match command {
            None => CdtOutput::VersionText,
            Some(Command::Version { json }) => if json {
                CdtOutput::VersionJson
            } else {
                CdtOutput::VersionText
            },
            Some(Command::List { json }) => if json {
                CdtOutput::ListJson
            } else {
                CdtOutput::ListText
            },
        },
{
    match command {
        None => CdtOutput::VersionText,
        Some(Command::Version { json }) => if json {
            CdtOutput::VersionJson
        } else {
            CdtOutput::VersionText
        },
        Some(Command::List { json }) => if json {
            CdtOutput::ListJson
        } else {
            CdtOutput::ListText
        },
    }
}

/// `BINARY VERSION — DESCRIPTION`.
pub open spec fn component_text(c: Component) -> Seq<char> {
    c.binary@ + " "@ + c.version@ + " — "@ + c.description@
}

/// The line of a component.
pub fn component_line(c: &Component) -> (s: String)
    ensures
        s@ == component_text(*c),
{
    let mut s = String::new();
    s.append(c.binary.as_str());
    s.append(" ");
    s.append(c.version.as_str());
    s.append(" — ");
    s.append(c.description.as_str());
    s
}

/// The lines of `cdt list`: one per component.
pub fn list_lines(m: &Manifest) -> (r: Vec<String>)
    ensures
        r@.len() == m.components@.len(),
        forall|i: int| 0 <= i < r@.len() ==> #[trigger] r@[i]@ == component_text(m.components@[i]),
{
    let mut r: Vec<String> = Vec::new();
    let mut i: usize = 0;
    while i < m.components.len()
        invariant
            i <= m.components.len(),
            r@.len() == i,
            forall|k: int| 0 <= k < i ==> #[trigger] r@[k]@ == component_text(m.components@[k]),
        decreases m.components.len() - i,
    {
        let line = component_line(&m.components[i]);
        r.push(line);
        i = i + 1;
    }
    r
}

/// The lines of `cdt version`: `NAME VERSION`, then each component's line
/// indented by two spaces.
pub fn version_lines(m: &Manifest) -> (r: Vec<String>)
    ensures
        r@.len() == m.components@.len() + 1,
        r@[0]@ == m.bundle.name@ + " "@ + m.bundle.version@,
        forall|i: int|
            0 <= i < m.components@.len() ==> #[trigger] r@[i + 1]@ == "  "@ + component_text(
                m.components@[i],
            ),
{
    let mut r: Vec<String> = Vec::new();
    let mut head = String::new();
    head.append(m.bundle.name.as_str());
    head.append(" ");
    head.append(m.bundle.version.as_str());
    r.push(head);
    let mut i: usize = 0;
    while i < m.components.len()
        invariant
            i <= m.components.len(),
            r@.len() == i + 1,
            r@[0]@ == m.bundle.name@ + " "@ + m.bundle.version@,
            forall|k: int|
                0 <= k < i ==> #[trigger] r@[k + 1]@ == "  "@ + component_text(m.components@[k]),
        decreases m.components.len() - i,
    {
        let mut line = String::new();
        line.append("  ");
        let c = component_line(&m.components[i]);
        line.append(c.as_str());
        r.push(line);
        i = i + 1;
    }
    r
}

} // verus!
