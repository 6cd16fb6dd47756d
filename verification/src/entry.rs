//! Catalog entries and the eligibility rule that admits a shortcut file.
//!
//! The surrounding binary parses each shortcut file and hands over the
//! recognized attributes as a [`RawEntry`]; this module decides whether those
//! attributes yield a selectable [`AppEntry`].

use vstd::prelude::*;

verus! {

/// One selectable item of the catalog.
pub struct AppEntry {
    /// Display name; non-empty for every catalog entry, and the key under
    /// which duplicates are dropped.
    pub name: String,
    /// Optional descriptive text, shown beside the name when present.
    pub description: Option<String>,
    /// Shell command that launches the application; non-empty for every
    /// catalog entry.
    pub command: String,
}

/// The attributes this library reads from one shortcut file, each as the
/// surrounding binary found it: present with its value, or absent.
pub struct RawEntry {
    /// The `Name` attribute: the display name.
    pub name: Option<String>,
    /// The `Exec` attribute: the launch command.
    pub exec_cmd: Option<String>,
    /// The `GenericName` attribute: descriptive text.
    pub generic_name: Option<String>,
    /// The `NoDisplay` attribute, verbatim.
    pub no_display: Option<String>,
}

/// The shortcut is explicitly marked hidden: a `NoDisplay` attribute equal to
/// `"true"`. Absence, or any other value, leaves it visible.
pub open spec fn hidden(r: RawEntry) -> bool {
    r.no_display is Some && r.no_display->0@ == "true"@
}

/// A shortcut yields a catalog entry exactly when it has a non-empty name, a
/// non-empty launch command, and no hidden mark.
pub open spec fn eligible(r: RawEntry) -> bool {
    &&& !hidden(r)
    &&& r.name is Some && r.name->0@.len() > 0
    &&& r.exec_cmd is Some && r.exec_cmd->0@.len() > 0
}

/// The entry an eligible shortcut yields.
pub open spec fn entry_of(r: RawEntry) -> AppEntry
    recommends
        eligible(r),
{
    AppEntry { name: r.name->0, description: r.generic_name, command: r.exec_cmd->0 }
}

/// Decide eligibility of one shortcut's attributes and build its entry.
pub fn to_entry(r: RawEntry) -> (e: Option<AppEntry>)
    ensures
        eligible(r) ==> e == Some(entry_of(r)),
        !eligible(r) ==> e is None,
{
    if let Some(v) = &r.no_display {
        if crate::text::str_eq(v.as_str(), "true") {
            proof {
                assert(hidden(r));
            }
            return None;
        }
    }
    let name = match r.name {
        Some(n) => n,
        None => {
            return None;
        },
    };
    let command = match r.exec_cmd {
        Some(e) => e,
        None => {
            return None;
        },
    };
    if name.as_str().unicode_len() == 0 || command.as_str().unicode_len() == 0 {
        return None;
    }
    Some(AppEntry { name, description: r.generic_name, command })
}

/// The list line shown for an entry: the name alone, or, when a non-empty
/// description is present, the name followed by the description in square
/// brackets.
pub open spec fn display_line_spec(e: AppEntry) -> Seq<char> {
    match e.description {
        Some(d) => if d@.len() > 0 {
            e.name@ + " ["@ + d@ + "]"@
        } else {
            e.name@
        },
        None => e.name@,
    }
}

/// Render the list line for one entry.
pub fn display_line(e: &AppEntry) -> (s: String)
    ensures
        s@ == display_line_spec(*e),
{
    let mut s = String::new();
    s.append(e.name.as_str());
    if let Some(d) = &e.description {
        if d.as_str().unicode_len() > 0 {
            s.append(" [");
            s.append(d.as_str());
            s.append("]");
            proof {
                assert(s@ =~= e.name@ + " ["@ + d@ + "]"@);
            }
        }
    }
    s
}

} // verus!
