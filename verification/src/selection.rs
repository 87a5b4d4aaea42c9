//! Which monitors get a wallpaper, and what surface each of them gets.
use crate::text::{
    ascii_lower, ascii_lowercase, contains, eq_ignore_ascii_case, law_occurs_between, occurs_in,
    same_text,
};
use vstd::prelude::*;

verus! {

/// What the compositor says of a monitor.
pub struct OutputInfo {
    /// Name of the connector, such as `DP-1`.
    pub name: Option<String>,
    /// Description for people: maker, model, serial number.
    pub description: Option<String>,
    pub scale_factor: i32,
}

/// The layers of the shell, from the bottom up.
#[derive(Clone, Copy, Debug, PartialEq, Eq, Structural)]
pub enum Layer {
    Background,
    Bottom,
    Top,
    Overlay,
}

/// The edges of the monitor that a layer surface is anchored to.
#[derive(Clone, Copy, Debug, PartialEq, Eq, Structural)]
pub struct Anchor {
    pub top: bool,
    pub right: bool,
    pub bottom: bool,
    pub left: bool,
}

/// The layer surface that a chosen monitor gets.
pub struct SurfaceRequest {
    pub layer: Layer,
    /// Tells the compositor what the surface is for.
    pub namespace: String,
    pub anchor: Anchor,
    /// Space that is kept free for the surface; negative if it ignores the space of others.
    pub exclusive_zone: i32,
    /// Zero leaves an extent to the compositor.
    pub size: (u32, u32),
    /// Whether the surface takes part in keyboard focus.
    pub keyboard: bool,
    /// Scale factor that the monitor starts with.
    pub scale: i32,
    /// Line for the user.
    pub notice: Option<String>,
}

/// The characters of a string that may be missing.
pub open spec fn text_of(s: Option<String>) -> Option<Seq<char>> {
    match s {
        Some(t) => Some(t@),
        None => None,
    }
}

/// The text, or a question mark where it is missing.
pub open spec fn or_unknown(s: Option<String>) -> Seq<char> {
    match s {
        Some(t) => t@,
        None => seq!['?'],
    }
}

/// The monitor argument stands for all monitors: `*`, or `all` in any case.
pub open spec fn selects_all(monitor: Seq<char>) -> bool {
    monitor == seq!['*'] || ascii_lowercase(monitor) == seq!['a', 'l', 'l']
}

/// The monitor argument selects the described monitor: it stands for all of them, is the name
/// of this one, or stands somewhere in its description.
pub open spec fn selects(
    monitor: Seq<char>,
    name: Option<Seq<char>>,
    description: Option<Seq<char>>,
) -> bool {
    ||| selects_all(monitor)
    ||| name == Some(monitor)
    ||| (description is Some && occurs_in(description->0, monitor))
}

/// The line that names a chosen monitor.
pub open spec fn selected_notice(name: Seq<char>) -> Seq<char> {
    "[mpvpaper] Selected output: "@ + name
}

impl SurfaceRequest {
    /// The surface of a wallpaper on the given layer: it covers the monitor from edge to edge,
    /// panels included, and takes no keyboard events.
    pub open spec fn is_wallpaper(self, layer: Layer) -> bool {
        &&& self.layer == layer
        &&& self.namespace@ == "mpvpaper"@
        &&& self.anchor == (Anchor { top: true, right: true, bottom: true, left: true })
        &&& self.exclusive_zone == -1
        &&& self.size == (0u32, 0u32)
        &&& !self.keyboard
    }
}

/// The text, or a question mark where it is missing.
pub fn unknown_if_missing(s: &Option<String>) -> (text: String)
    ensures
        text@ == or_unknown(*s),
{
    match s {
        Some(t) => t.clone(),
        None => {
            proof {
                reveal_strlit("?");
            }
            assert("?"@ =~= seq!['?']);
            "?".to_owned()
        },
    }
}

/// Whether the monitor argument selects the described monitor.
pub fn monitor_selects(monitor: &str, info: &OutputInfo) -> (selected: bool)
    ensures
        selected == selects(monitor@, text_of(info.name), text_of(info.description)),
{
    proof {
        reveal_strlit("all");
        reveal_strlit("*");
        assert("*"@ =~= seq!['*']);
        assert("all"@ =~= seq!['a', 'l', 'l']);
        assert(ascii_lowercase("all"@) =~= seq!['a', 'l', 'l']);
    }
    if eq_ignore_ascii_case(monitor, "all") || same_text(monitor, "*") {
        return true;
    }
    let name_match: bool = match &info.name {
        Some(name) => same_text(name.as_str(), monitor),
        None => false,
    };
    let description_match: bool = match &info.description {
        Some(description) => contains(description.as_str(), monitor),
        None => false,
    };
    name_match || description_match
}

/// `ALL`, in any case, and `*` select every monitor, also one that the compositor says nothing
/// of.
pub proof fn law_all_selects_every_monitor(
    monitor: Seq<char>,
    name: Option<Seq<char>>,
    description: Option<Seq<char>>,
)
    requires
        monitor == "*"@ || ascii_lowercase(monitor) == ascii_lowercase("ALL"@),
    ensures
        selects(monitor, name, description),
{
    reveal_strlit("ALL");
    reveal_strlit("*");
    assert("*"@ =~= seq!['*']);
    assert(ascii_lowercase("ALL"@) =~= seq!['a', 'l', 'l']);
}

/// The full name of a monitor selects it.
pub proof fn law_name_selects(name: Seq<char>, description: Option<Seq<char>>)
    ensures
        selects(name, Some(name), description),
{
}

/// A call of `monitor_selects` selects the monitor exactly if the argument is `*`, or the three
/// letters of `all` in capitals or small letters, or the whole name of the monitor, or stands in
/// its description. In all other cases the monitor is left alone: that its name stands within the
/// argument, or the argument within its name, does not count.
pub proof fn law_selected_exactly_if(monitor: &str, info: &OutputInfo, selected: bool)
    requires
        call_ensures(monitor_selects, (monitor, info), selected),
    ensures
        selected <==> {
            ||| monitor@ == "*"@
            ||| monitor@.len() == 3 && (monitor@[0] == 'a' || monitor@[0] == 'A') && (monitor@[1]
                == 'l' || monitor@[1] == 'L') && (monitor@[2] == 'l' || monitor@[2] == 'L')
            ||| info.name is Some && info.name->0@ == monitor@
            ||| info.description is Some && exists|before: Seq<char>, after: Seq<char>|
                info.description->0@ == #[trigger] (before + monitor@ + after)
        },
{
    reveal_strlit("*");
    assert("*"@ =~= seq!['*']);
    let lower = ascii_lowercase(monitor@);
    if lower == seq!['a', 'l', 'l'] {
        assert(lower.len() == monitor@.len());
        assert(lower[0] == ascii_lower(monitor@[0]) && lower[0] == 'a');
        assert(lower[1] == ascii_lower(monitor@[1]) && lower[1] == 'l');
        assert(lower[2] == ascii_lower(monitor@[2]) && lower[2] == 'l');
    }
    if monitor@.len() == 3 && (monitor@[0] == 'a' || monitor@[0] == 'A') && (monitor@[1] == 'l'
        || monitor@[1] == 'L') && (monitor@[2] == 'l' || monitor@[2] == 'L') {
        assert(lower =~= seq!['a', 'l', 'l']);
    }
    if info.description is Some {
        law_occurs_between(info.description->0@, monitor@);
    }
}

/// A monitor is left alone if the argument does not stand for all monitors, is not its name, and
/// stands nowhere in its description.
pub proof fn law_others_are_left_alone(monitor: &str, info: &OutputInfo, selected: bool)
    requires
        call_ensures(monitor_selects, (monitor, info), selected),
        monitor@ != "*"@,
        !(monitor@.len() == 3 && (monitor@[0] == 'a' || monitor@[0] == 'A') && (monitor@[1] == 'l'
            || monitor@[1] == 'L') && (monitor@[2] == 'l' || monitor@[2] == 'L')),
        info.name is Some ==> info.name->0@ != monitor@,
        info.description is Some ==> forall|i: int|
            0 <= i <= info.description->0@.len() - monitor@.len() ==> #[trigger]
                info.description->0@.subrange(i, i + monitor@.len()) != monitor@,
    ensures
        !selected,
{
    law_selected_exactly_if(monitor, info, selected);
    if info.description is Some {
        let text = info.description->0@;
        assert forall|before: Seq<char>, after: Seq<char>| text != #[trigger] (before + monitor@
            + after) by {
            if text == before + monitor@ + after {
                let i = before.len() as int;
                assert(text.subrange(i, i + monitor@.len()) =~= monitor@);
            }
        }
    }
}

/// A call of `unknown_if_missing` keeps a text that is there, and gives a question mark for one
/// that is missing.
pub proof fn law_missing_text_is_a_question_mark(s: &Option<String>, text: String)
    requires
        call_ensures(unknown_if_missing, (s,), text),
    ensures
        *s matches Some(t) ==> text@ == t@,
        *s is None ==> text@ == "?"@,
{
    reveal_strlit("?");
    assert("?"@ =~= seq!['?']);
}

} // verus!
