//! Icon Resolver: turns the parsed icon reference into a usable file path,
//! or the empty string. An absolute reference is taken as it stands; a bare
//! name goes to the icon-lookup collaborator, retried once against the
//! configured fallback theme at a fixed pixel size. What the lookups return
//! depends on the filesystem, so only the choice among their outcomes is
//! pinned down, by `icon_path_from`.

use vstd::prelude::*;
use vstd::string::*;
use crate::chars::str_to_chars;
use crate::entry::opt_str_view;

verus! {

/// The pixel size the fallback-theme lookup is constrained to.
pub const FALLBACK_ICON_SIZE: u16 = 48;

/// Relies on `freedesktop_icons::lookup(name).find()`: a lookup through the
/// standard icon themes, yielding the path of an icon file found on disk,
/// or nothing. The outcome depends on the filesystem, so nothing more is
/// assumed of it.
#[verifier::external_body]
fn lookup_icon_default(name: &str) -> (r: Option<String>) {
    freedesktop_icons::lookup(name).find().map(|p| p.to_string_lossy().into_owned())
}

/// Relies on `freedesktop_icons::lookup(name).with_size(size)
/// .with_theme(theme).find()`: the same lookup constrained to one theme and
/// pixel size. The outcome depends on the filesystem, so nothing more is
/// assumed of it.
#[verifier::external_body]
fn lookup_icon_themed(name: &str, size: u16, theme: &str) -> (r: Option<String>) {
    freedesktop_icons::lookup(name).with_size(size).with_theme(theme).find().map(
        |p| p.to_string_lossy().into_owned(),
    )
}

/// The path chosen among the lookup outcomes: the primary result when there
/// is one, else the fallback result, else the empty string.
pub open spec fn spec_icon_from(primary: Option<Seq<char>>, fallback: Option<Seq<char>>) -> Seq<
    char,
> {
    match primary {
        Some(p) => p,
        None => match fallback {
            Some(f) => f,
            None => Seq::empty(),
        },
    }
}

pub fn icon_path_from(primary: Option<String>, fallback: Option<String>) -> (r: String)
    ensures
        r@ == spec_icon_from(opt_str_view(primary), opt_str_view(fallback)),
{
    match primary {
        Some(p) => p,
        None => match fallback {
            Some(f) => f,
            None => String::new(),
        },
    }
}

/// The resolved icon path of an entry: empty without a reference, the
/// reference itself when it is already an absolute path, and otherwise
/// whatever `icon_path_from` chooses among the lookups — the fallback-theme
/// lookup tried only when the primary lookup fails and a fallback theme is
/// configured.
pub fn resolve_icon(icon: &Option<String>, icon_theme_fallback: &String) -> (r: String)
    ensures
        ({
            let iv = opt_str_view(*icon);
            match iv {
                None => r@ == Seq::<char>::empty(),
                Some(n) => (n.len() > 0 && n[0] == '/') ==> r@ == n,
            }
        }),
{
    match icon {
        None => String::new(),
        Some(n) => {
            let cs = str_to_chars(n.as_str());
            if cs.len() > 0 && cs[0] == '/' {
                return n.clone();
            }
            let primary = lookup_icon_default(n.as_str());
            let fallback = if primary.is_none() && !icon_theme_fallback.as_str().is_empty() {
                lookup_icon_themed(n.as_str(), FALLBACK_ICON_SIZE, icon_theme_fallback.as_str())
            } else {
                None
            };
            icon_path_from(primary, fallback)
        },
    }
}

} // verus!
