//! User configuration: default view and sort settings and external tools.
use vstd::prelude::*;

use crate::state::{SortField, ViewMode};
use crate::text::{chars_equal, chars_of};

verus! {

/// Defaults from the configuration file; each is optional.
pub struct Defaults {
    pub view: Option<String>,
    pub sort: Option<String>,
    pub sort_desc: Option<bool>,
    pub thumb_size: Option<u32>,
}

/// An external program and the arguments put before the image path.
pub struct ToolConfig {
    pub command: String,
    pub args: Vec<String>,
}

/// The configuration: defaults and named tools. A name occurs at most once.
pub struct Config {
    pub defaults: Defaults,
    pub tools: Vec<(String, ToolConfig)>,
}

pub open spec fn strings_view(v: Seq<String>) -> Seq<Seq<char>> {
    v.map_values(|s: String| s@)
}

impl Config {
    /// Each tool name occurs once, as in the table the file holds.
    pub open spec fn wf(&self) -> bool {
        forall|i: int, j: int|
            0 <= i < j < self.tools@.len() ==> (#[trigger] self.tools@[i]).0@ != (#[trigger] self.tools@[j]).0@
    }

    /// Nothing configured.
    pub fn default() -> (r: Self)
        ensures
            r.defaults.view is None,
            r.defaults.sort is None,
            r.defaults.sort_desc is None,
            r.defaults.thumb_size is None,
            r.tools@.len() == 0,
            r.wf(),
    {
        Config {
            defaults: Defaults { view: None, sort: None, sort_desc: None, thumb_size: None },
            tools: Vec::new(),
        }
    }

    /// The position of the tool named `name`, if one is configured.
    pub open spec fn tool_index(&self, name: Seq<char>) -> Option<int> {
        if exists|k: int| 0 <= k < self.tools@.len() && self.tools@[k].0@ == name {
            Some(
                choose|k: int|
                    0 <= k < self.tools@.len() && self.tools@[k].0@ == name && forall|j: int|
                        0 <= j < k ==> self.tools@[j].0@ != name,
            )
        } else {
            None
        }
    }

    /// The command line for tool `name`: the configured command and arguments,
    /// or the name itself with no arguments when it is not configured.
    pub fn tool_command(&self, name: &str) -> (r: (String, Vec<String>))
        ensures
            match self.tool_index(name@) {
                Some(k) => r.0@ == self.tools@[k].1.command@ && strings_view(r.1@) == strings_view(
                    self.tools@[k].1.args@,
                ),
                None => r.0@ == name@ && r.1@.len() == 0,
            },
    {
        let key = chars_of(name);
        let mut k: usize = 0;
        while k < self.tools.len()
            invariant
                0 <= k <= self.tools@.len(),
                key@ == name@,
                forall|j: int| 0 <= j < k ==> self.tools@[j].0@ != name@,
            decreases self.tools@.len() - k,
        {
            let tname = chars_of(self.tools[k].0.as_str());
            if chars_equal(&tname, name) {
                proof {
                    let w = choose|w: int|
                        0 <= w < self.tools@.len() && self.tools@[w].0@ == name@ && forall|j: int|
                            0 <= j < w ==> self.tools@[j].0@ != name@;
                    if w < k {
                    } else if w > k {
                        assert(self.tools@[k as int].0@ == name@);
                    }
                }
                let tool = &self.tools[k].1;
                return (tool.command.clone(), clone_strings(&tool.args));
            }
            k = k + 1;
        }
        let mut cmd = String::new();
        crate::text::push_str(&mut cmd, name);
        (cmd, Vec::new())
    }
}

/// A copy of a list of strings.
pub fn clone_strings(v: &Vec<String>) -> (r: Vec<String>)
    ensures
        strings_view(r@) == strings_view(v@),
{
    let mut out: Vec<String> = Vec::new();
    let mut k: usize = 0;
    while k < v.len()
        invariant
            0 <= k <= v@.len(),
            strings_view(out@) == strings_view(v@.take(k as int)),
        decreases v@.len() - k,
    {
        out.push(v[k].clone());
        assert(strings_view(v@.take(k + 1)) =~= strings_view(v@.take(k as int)).push(v@[k as int]@));
        assert(strings_view(out@) =~= strings_view(v@.take(k + 1)));
        k = k + 1;
    }
    assert(v@.take(v@.len() as int) =~= v@);
    out
}

/// View mode, sort order and thumbnail size at start-up.
pub struct StartupSettings {
    pub view_mode: ViewMode,
    pub sort_field: SortField,
    pub sort_ascending: bool,
    pub thumb_size: u32,
}

/// "grid" gives the grid view; any other name the list view.
pub open spec fn view_named(s: Seq<char>) -> ViewMode {
    if s == "grid"@ {
        ViewMode::Grid
    } else {
        ViewMode::List
    }
}

/// "size" and "date" name those fields; any other name sorts by name.
pub open spec fn sort_named(s: Seq<char>) -> SortField {
    if s == "size"@ {
        SortField::Size
    } else if s == "date"@ {
        SortField::Date
    } else {
        SortField::Name
    }
}

pub open spec fn opt_view(o: Option<String>) -> Option<Seq<char>> {
    match o {
        Some(s) => Some(s@),
        None => None,
    }
}

/// The thumbnail size when neither the command line nor the configuration
/// gives one.
pub const DEFAULT_THUMB_SIZE: u32 = 160;

/// The start-up settings: the list view sorted by name ascending with
/// thumbnails of `DEFAULT_THUMB_SIZE`, overridden by the configuration's
/// defaults, which the command line overrides in turn. A descending sort can
/// be asked for but not undone by a later source. The one thumbnail size
/// chosen serves both the grid and the decoder.
pub open spec fn startup_spec(
    d_view: Option<Seq<char>>,
    d_sort: Option<Seq<char>>,
    d_desc: Option<bool>,
    d_thumb: Option<u32>,
    cli_view: Option<Seq<char>>,
    cli_sort: Option<Seq<char>>,
    cli_sort_desc: bool,
    cli_thumb: Option<u32>,
) -> (ViewMode, SortField, bool, u32) {
    let view = match cli_view {
        Some(v) => view_named(v),
        None => match d_view {
            Some(v) => view_named(v),
            None => ViewMode::List,
        },
    };
    let sort = match cli_sort {
        Some(s) => sort_named(s),
        None => match d_sort {
            Some(s) => sort_named(s),
            None => SortField::Name,
        },
    };
    let ascending = !(d_desc == Some(true) || cli_sort_desc);
    let thumb = match cli_thumb {
        Some(t) => t,
        None => match d_thumb {
            Some(t) => t,
            None => DEFAULT_THUMB_SIZE,
        },
    };
    (view, sort, ascending, thumb)
}

fn view_of(s: &str) -> (r: ViewMode)
    ensures
        r == view_named(s@),
{
    if chars_equal(&chars_of(s), "grid") {
        ViewMode::Grid
    } else {
        ViewMode::List
    }
}

fn sort_of(s: &str) -> (r: SortField)
    ensures
        r == sort_named(s@),
{
    let cs = chars_of(s);
    if chars_equal(&cs, "size") {
        SortField::Size
    } else if chars_equal(&cs, "date") {
        SortField::Date
    } else {
        SortField::Name
    }
}

/// Combine the configuration defaults and the command-line options.
pub fn startup_settings(
    defaults: &Defaults,
    cli_view: Option<&str>,
    cli_sort: Option<&str>,
    cli_sort_desc: bool,
    cli_thumb: Option<u32>,
) -> (r: StartupSettings)
    ensures
        (r.view_mode, r.sort_field, r.sort_ascending, r.thumb_size) == startup_spec(
            opt_view(defaults.view),
            opt_view(defaults.sort),
            defaults.sort_desc,
            defaults.thumb_size,
            match cli_view {
                Some(v) => Some(v@),
                None => None,
            },
            match cli_sort {
                Some(v) => Some(v@),
                None => None,
            },
            cli_sort_desc,
            cli_thumb,
        ),
{
    let mut view_mode = ViewMode::List;
    let mut sort_field = SortField::Name;
    let mut sort_ascending = true;
    let mut thumb = DEFAULT_THUMB_SIZE;
    match &defaults.view {
        Some(v) => {
            view_mode = view_of(v.as_str());
        },
        None => {},
    }
    match &defaults.sort {
        Some(s) => {
            sort_field = sort_of(s.as_str());
        },
        None => {},
    }
    match defaults.sort_desc {
        Some(desc) => {
            if desc {
                sort_ascending = false;
            }
        },
        None => {},
    }
    match defaults.thumb_size {
        Some(ts) => {
            thumb = ts;
        },
        None => {},
    }
    match cli_view {
        Some(v) => {
            view_mode = view_of(v);
        },
        None => {},
    }
    match cli_sort {
        Some(s) => {
            sort_field = sort_of(s);
        },
        None => {},
    }
    if cli_sort_desc {
        sort_ascending = false;
    }
    match cli_thumb {
        Some(ts) => {
            thumb = ts;
        },
        None => {},
    }
    StartupSettings { view_mode, sort_field, sort_ascending, thumb_size: thumb }
}

} // verus!
