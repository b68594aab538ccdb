//! Installed-browser choices, so the user can pick which one opens monitor
//! links. Only macOS probes for installed bundles; elsewhere the system
//! default is the only choice.

use vstd::prelude::*;
use vstd::string::*;

verus! {

/// A browser the user can choose. `app` is empty for "System default".
pub struct Browser {
    /// Label shown in the dropdown, e.g. "Google Chrome".
    pub name: String,
    /// The value passed to the opener (the app name). Empty = system default.
    pub app: String,
}

/// Known browsers as (display name, `.app` bundle filename), in the order
/// they are offered.
pub open spec fn known() -> Seq<(Seq<char>, Seq<char>)> {
    seq![
        ("Safari"@, "Safari.app"@),
        ("Google Chrome"@, "Google Chrome.app"@),
        ("Brave Browser"@, "Brave Browser.app"@),
        ("Firefox"@, "Firefox.app"@),
        ("Microsoft Edge"@, "Microsoft Edge.app"@),
        ("Arc"@, "Arc.app"@),
        ("Vivaldi"@, "Vivaldi.app"@),
        ("Opera"@, "Opera.app"@),
        ("Chromium"@, "Chromium.app"@),
    ]
}

/// The known browsers, as `known()` lists them.
pub fn known_browsers() -> (r: Vec<(&'static str, &'static str)>)
    ensures
        r@.len() == known().len(),
        forall|i: int| 0 <= i < r@.len() ==> (#[trigger] r@[i]).0@ == known()[i].0 && r@[i].1@ == known()[i].1,
{
    let r = vec![
        ("Safari", "Safari.app"),
        ("Google Chrome", "Google Chrome.app"),
        ("Brave Browser", "Brave Browser.app"),
        ("Firefox", "Firefox.app"),
        ("Microsoft Edge", "Microsoft Edge.app"),
        ("Arc", "Arc.app"),
        ("Vivaldi", "Vivaldi.app"),
        ("Opera", "Opera.app"),
        ("Chromium", "Chromium.app"),
    ];
    assert(r@.len() == 9);
    r
}

/// The "System default" choice.
pub open spec fn is_system_default(b: Browser) -> bool {
    b.name@ == "System default"@ && b.app@.len() == 0
}

fn system_default() -> (r: Browser)
    ensures
        is_system_default(r),
{
    Browser { name: String::from_str("System default"), app: String::new() }
}

/// Installed browsers where no bundle probing is done: the system default only.
pub fn detect() -> (r: Vec<Browser>)
    ensures
        r@.len() == 1,
        is_system_default(r@[0]),
{
    let mut r: Vec<Browser> = Vec::new();
    r.push(system_default());
    r
}

/// The display names of the known browsers marked present, in order.
pub open spec fn present_names(present: Seq<bool>) -> Seq<Seq<char>>
    decreases present.len(),
{
    if present.len() == 0 {
        Seq::empty()
    } else {
        let r = present_names(present.drop_last());
        if present.last() {
            r.push(known()[present.len() - 1].0)
        } else {
            r
        }
    }
}

/// Installed browsers, "System default" first, then each known browser whose
/// bundle was found (`present[i]` for `known()[i]`), named by its display
/// name for both label and app.
pub fn detect_present(present: &Vec<bool>) -> (r: Vec<Browser>)
    requires
        present@.len() == known().len(),
    ensures
        r@.len() == present_names(present@).len() + 1,
        is_system_default(r@[0]),
        forall|i: int| 0 <= i < present_names(present@).len() ==> (#[trigger] r@[i + 1]).name@
            == present_names(present@)[i] && r@[i + 1].app@ == present_names(present@)[i],
{
    let list = known_browsers();
    let mut r: Vec<Browser> = Vec::new();
    r.push(system_default());
    let mut i: usize = 0;
    while i < present.len()
        invariant
            i <= present@.len(),
            present@.len() == list@.len(),
            list@.len() == known().len(),
            forall|j: int| 0 <= j < list@.len() ==> (#[trigger] list@[j]).0@ == known()[j].0,
            r@.len() == present_names(present@.take(i as int)).len() + 1,
            is_system_default(r@[0]),
            forall|j: int| 0 <= j < present_names(present@.take(i as int)).len() ==> (#[trigger] r@[j + 1]).name@
                == present_names(present@.take(i as int))[j] && r@[j + 1].app@ == present_names(present@.take(i as int))[j],
        decreases present@.len() - i,
    {
        assert(present@.take(i + 1).drop_last() =~= present@.take(i as int));
        if present[i] {
            let name = list[i].0;
            r.push(Browser { name: String::from_str(name), app: String::from_str(name) });
        }
        i = i + 1;
    }
    assert(present@.take(i as int) =~= present@);
    r
}

} // verus!
