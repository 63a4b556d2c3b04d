//! The names the chrome goes by and the texts it shows for its states: views and screens by
//! name, the learning stages, the coach, the hint for whoever has the keyboard, and the report
//! of a VS Code import.

use vstd::prelude::*;

use vstd::view::View as _;

use crate::text::{concat, decimal, decimal_string, str_eq};
use crate::workbench::settings::ImportReport;
use crate::workbench::{Focus, Screen, ThemeColor, View};

verus! {

/// The view a name stands for (its icon's name: `explorer`, `search`, `git`, ...).
pub open spec fn spec_view_named(name: Seq<char>) -> Option<View> {
    if name == "explorer"@ {
        Some(View::Explorer)
    } else if name == "search"@ {
        Some(View::Search)
    } else if name == "git"@ {
        Some(View::Git)
    } else if name == "debug"@ {
        Some(View::Debug)
    } else if name == "plugins"@ {
        Some(View::Plugins)
    } else if name == "ask"@ {
        Some(View::Ask)
    } else if name == "learn"@ {
        Some(View::Learn)
    } else {
        None
    }
}

pub fn view_named(name: &str) -> (v: Option<View>)
    ensures
        v == spec_view_named(name@),
{
    proof {
        reveal_strlit("explorer");
        reveal_strlit("search");
        reveal_strlit("git");
        reveal_strlit("debug");
        reveal_strlit("plugins");
        reveal_strlit("ask");
        reveal_strlit("learn");
    }
    if str_eq(name, "explorer") {
        Some(View::Explorer)
    } else if str_eq(name, "search") {
        Some(View::Search)
    } else if str_eq(name, "git") {
        Some(View::Git)
    } else if str_eq(name, "debug") {
        Some(View::Debug)
    } else if str_eq(name, "plugins") {
        Some(View::Plugins)
    } else if str_eq(name, "ask") {
        Some(View::Ask)
    } else if str_eq(name, "learn") {
        Some(View::Learn)
    } else {
        None
    }
}

/// The screen a name stands for: `welcome`, `settings`, `plugins` or `learn`.
pub open spec fn spec_screen_named(name: Seq<char>) -> Option<Screen> {
    if name == "welcome"@ {
        Some(Screen::Welcome)
    } else if name == "settings"@ {
        Some(Screen::Settings)
    } else if name == "plugins"@ {
        Some(Screen::Plugins)
    } else if name == "learn"@ {
        Some(Screen::Learn)
    } else {
        None
    }
}

pub fn screen_named(name: &str) -> (s: Option<Screen>)
    ensures
        s == spec_screen_named(name@),
{
    proof {
        reveal_strlit("welcome");
        reveal_strlit("settings");
        reveal_strlit("plugins");
        reveal_strlit("learn");
    }
    if str_eq(name, "welcome") {
        Some(Screen::Welcome)
    } else if str_eq(name, "settings") {
        Some(Screen::Settings)
    } else if str_eq(name, "plugins") {
        Some(Screen::Plugins)
    } else if str_eq(name, "learn") {
        Some(Screen::Learn)
    } else {
        None
    }
}

/// The name of learning stage `n` (none for a stage that does not exist).
pub open spec fn spec_stage_name(n: u32) -> Seq<char> {
    if n == 1 {
        "VS Code keys"@
    } else if n == 2 {
        "Hybrid"@
    } else if n == 3 {
        "Modal with safety net"@
    } else if n == 4 {
        "Pure Neovim"@
    } else {
        ""@
    }
}

pub fn stage_name(n: u32) -> (s: &'static str)
    ensures
        s@ == spec_stage_name(n),
{
    if n == 1 {
        "VS Code keys"
    } else if n == 2 {
        "Hybrid"
    } else if n == 3 {
        "Modal with safety net"
    } else if n == 4 {
        "Pure Neovim"
    } else {
        ""
    }
}

/// How often the coach shows a hint, from its setting (`always`, `once`, `off`, else the
/// first three times).
pub open spec fn spec_coach_text(coach: Seq<char>) -> Seq<char> {
    if coach == "always"@ {
        "every time"@
    } else if coach == "once"@ {
        "once"@
    } else if coach == "off"@ {
        "never"@
    } else {
        "the first three times"@
    }
}

pub fn coach_text(coach: &str) -> (s: &'static str)
    ensures
        s@ == spec_coach_text(coach@),
{
    proof {
        reveal_strlit("always");
        reveal_strlit("once");
        reveal_strlit("off");
    }
    if str_eq(coach, "always") {
        "every time"
    } else if str_eq(coach, "once") {
        "once"
    } else if str_eq(coach, "off") {
        "never"
    } else {
        "the first three times"
    }
}

/// The hint the status bar shows for whoever has the keyboard (none for the grid).
pub open spec fn spec_focus_hint(owner: Focus) -> Seq<char> {
    match owner {
        Focus::Sidebar => "sidebar · j k move, Enter open, h close, / filter, Esc back"@,
        Focus::Panel => "panel · j k move, Enter open, Esc back"@,
        Focus::Palette => "palette · type, Enter run, Esc close"@,
        Focus::Screen => "Esc back to the editor"@,
        Focus::Grid => ""@,
    }
}

pub fn focus_hint(owner: Focus) -> (s: &'static str)
    ensures
        s@ == spec_focus_hint(owner),
{
    match owner {
        Focus::Sidebar => "sidebar · j k move, Enter open, h close, / filter, Esc back",
        Focus::Panel => "panel · j k move, Enter open, Esc back",
        Focus::Palette => "palette · type, Enter run, Esc close",
        Focus::Screen => "Esc back to the editor",
        Focus::Grid => "",
    }
}

/// `parts` joined by `sep`.
pub open spec fn joined(parts: Seq<Seq<char>>, sep: Seq<char>) -> Seq<char>
    decreases parts.len(),
{
    if parts.len() == 0 {
        Seq::empty()
    } else if parts.len() == 1 {
        parts[0]
    } else {
        joined(parts.drop_last(), sep) + sep + parts.last()
    }
}

/// The lines of an import report, each with its colour: the folder it came from; the error,
/// if any; the first eight settings applied; the first six keys; the names of the settings
/// skipped, if any; and the counts.
pub open spec fn spec_report_lines(r: ImportReport) -> Seq<(ThemeColor, Seq<char>)> {
    let head = seq![(ThemeColor::Spectral, "Imported from VS Code  ("@ + r.dir@ + ")"@)];
    let error = match r.error {
        Some(e) => seq![(ThemeColor::Viscera, e@)],
        None => Seq::empty(),
    };
    let applied = Seq::new(
        if r.applied@.len() < 8 { r.applied@.len() } else { 8 },
        |i: int|
            {
                let a = r.applied@[i];
                (ThemeColor::Bone, a.key@ + " "@ + a.from@ + "  ->  "@ + a.setting@ + " = "@ + a.value@)
            },
    );
    let keys = Seq::new(
        if r.keys@.len() < 6 { r.keys@.len() } else { 6 },
        |i: int|
            {
                let k = r.keys@[i];
                (ThemeColor::Bone, k.key@ + "  ->  "@ + k.lhs@ + "  "@ + k.desc@)
            },
    );
    let skipped = if r.skipped@.len() == 0 {
        Seq::empty()
    } else {
        seq![
            (
                ThemeColor::Ash,
                "No equivalent, skipped: "@ + joined(Seq::new(r.skipped@.len(), |i: int| r.skipped@[i].key@), ", "@),
            ),
        ]
    };
    let counts = seq![
        (
            ThemeColor::BoneDim,
            decimal(r.applied@.len()) + " applied, "@ + decimal(r.keys@.len()) + " keybindings, "@ + decimal(
                r.skipped@.len() + r.keys_skipped@.len(),
            ) + " skipped"@,
        ),
    ];
    head + error + applied + keys + skipped + counts
}

pub open spec fn lines_of(v: Seq<(ThemeColor, String)>) -> Seq<(ThemeColor, Seq<char>)> {
    Seq::new(v.len(), |i: int| (v[i].0, v[i].1@))
}

fn push_line(v: &mut Vec<(ThemeColor, String)>, c: ThemeColor, s: String)
    ensures
        lines_of(final(v)@) == lines_of(old(v)@).push((c, s@)),
{
    v.push((c, s));
    proof {
        assert(lines_of(v@) =~= lines_of(old(v)@).push((c, s@)));
    }
}

/// The lines the Settings screen shows for an import report (see `spec_report_lines`).
pub fn report_lines(r: &ImportReport) -> (lines: Vec<(ThemeColor, String)>)
    requires
        r.skipped@.len() + r.keys_skipped@.len() <= u64::MAX,
    ensures
        lines_of(lines@) == spec_report_lines(*r),
{
    proof {
        reveal_strlit("Imported from VS Code  (");
        reveal_strlit(")");
        reveal_strlit(" ");
        reveal_strlit("  ->  ");
        reveal_strlit(" = ");
        reveal_strlit("  ");
        reveal_strlit("No equivalent, skipped: ");
        reveal_strlit(", ");
        reveal_strlit(" applied, ");
        reveal_strlit(" keybindings, ");
        reveal_strlit(" skipped");
    }
    let mut lines: Vec<(ThemeColor, String)> = Vec::new();
    push_line(&mut lines, ThemeColor::Spectral, concat(concat("Imported from VS Code  (", r.dir.as_str()).as_str(), ")"));
    let ghost head = lines_of(lines@);
    assert(head =~= seq![(ThemeColor::Spectral, "Imported from VS Code  ("@ + r.dir@ + ")"@)]);
    match &r.error {
        Some(e) => push_line(&mut lines, ThemeColor::Viscera, e.clone()),
        None => {},
    }
    let ghost after_error = lines_of(lines@);
    let ghost error_s = if r.error is Some {
        seq![(ThemeColor::Viscera, r.error->0@)]
    } else {
        Seq::<(ThemeColor, Seq<char>)>::empty()
    };
    assert(after_error =~= head + error_s);
    let na = if r.applied.len() < 8 { r.applied.len() } else { 8 };
    let mut i: usize = 0;
    while i < na
        invariant
            na <= r.applied@.len(),
            na == (if r.applied@.len() < 8 { r.applied@.len() } else { 8 }),
            i <= na,
            lines_of(lines@) == after_error + Seq::new(
                i as nat,
                |j: int|
                    {
                        let a = r.applied@[j];
                        (ThemeColor::Bone, a.key@ + " "@ + a.from@ + "  ->  "@ + a.setting@ + " = "@ + a.value@)
                    },
            ),
        decreases na - i,
    {
        let a = &r.applied[i];
        let s = concat(
            concat(concat(concat(concat(concat(a.key.as_str(), " ").as_str(), a.from.as_str()).as_str(), "  ->  ").as_str(), a.setting.as_str()).as_str(), " = ").as_str(),
            a.value.as_str(),
        );
        let ghost before = lines_of(lines@);
        push_line(&mut lines, ThemeColor::Bone, s);
        proof {
            assert(lines_of(lines@) =~= after_error + Seq::new(
                (i + 1) as nat,
                |j: int|
                    {
                        let a = r.applied@[j];
                        (ThemeColor::Bone, a.key@ + " "@ + a.from@ + "  ->  "@ + a.setting@ + " = "@ + a.value@)
                    },
            ));
        }
        i += 1;
    }
    let ghost after_applied = lines_of(lines@);
    let nk = if r.keys.len() < 6 { r.keys.len() } else { 6 };
    let mut k: usize = 0;
    while k < nk
        invariant
            nk <= r.keys@.len(),
            nk == (if r.keys@.len() < 6 { r.keys@.len() } else { 6 }),
            k <= nk,
            lines_of(lines@) == after_applied + Seq::new(
                k as nat,
                |j: int|
                    {
                        let x = r.keys@[j];
                        (ThemeColor::Bone, x.key@ + "  ->  "@ + x.lhs@ + "  "@ + x.desc@)
                    },
            ),
        decreases nk - k,
    {
        let x = &r.keys[k];
        let s = concat(concat(concat(concat(x.key.as_str(), "  ->  ").as_str(), x.lhs.as_str()).as_str(), "  ").as_str(), x.desc.as_str());
        push_line(&mut lines, ThemeColor::Bone, s);
        proof {
            assert(lines_of(lines@) =~= after_applied + Seq::new(
                (k + 1) as nat,
                |j: int|
                    {
                        let x = r.keys@[j];
                        (ThemeColor::Bone, x.key@ + "  ->  "@ + x.lhs@ + "  "@ + x.desc@)
                    },
            ));
        }
        k += 1;
    }
    let ghost after_keys = lines_of(lines@);
    let ghost skipped_s = if r.skipped@.len() == 0 {
        Seq::<(ThemeColor, Seq<char>)>::empty()
    } else {
        seq![
            (
                ThemeColor::Ash,
                "No equivalent, skipped: "@ + joined(Seq::new(r.skipped@.len(), |i: int| r.skipped@[i].key@), ", "@),
            ),
        ]
    };
    if r.skipped.len() > 0 {
        let ghost names = Seq::new(r.skipped@.len(), |j: int| r.skipped@[j].key@);
        let mut text = r.skipped[0].key.clone();
        let mut j: usize = 1;
        proof {
            assert(names.take(1) =~= seq![names[0]]);
        }
        while j < r.skipped.len()
            invariant
                names == Seq::new(r.skipped@.len(), |m: int| r.skipped@[m].key@),
                1 <= j <= r.skipped@.len(),
                text@ == joined(names.take(j as int), ", "@),
            decreases r.skipped@.len() - j,
        {
            text = concat(concat(text.as_str(), ", ").as_str(), r.skipped[j].key.as_str());
            proof {
                assert(names.take(j + 1).drop_last() =~= names.take(j as int));
            }
            j += 1;
        }
        proof {
            assert(names.take(j as int) =~= names);
        }
        push_line(&mut lines, ThemeColor::Ash, concat("No equivalent, skipped: ", text.as_str()));
    }
    let ghost after_skipped = lines_of(lines@);
    assert(after_skipped =~= after_keys + skipped_s);
    let total = r.skipped.len() as u64 + r.keys_skipped.len() as u64;
    let counts = concat(
        concat(
            concat(concat(decimal_string(r.applied.len() as u64).as_str(), " applied, ").as_str(), decimal_string(r.keys.len() as u64).as_str()).as_str(),
            " keybindings, ",
        ).as_str(),
        concat(decimal_string(total).as_str(), " skipped").as_str(),
    );
    assert(counts@ =~= decimal(r.applied@.len()) + " applied, "@ + decimal(r.keys@.len()) + " keybindings, "@ + decimal(
        r.skipped@.len() + r.keys_skipped@.len(),
    ) + " skipped"@);
    push_line(&mut lines, ThemeColor::BoneDim, counts);
    proof {
        let applied_s = Seq::new(
            if r.applied@.len() < 8 { r.applied@.len() } else { 8 },
            |i: int|
                {
                    let a = r.applied@[i];
                    (ThemeColor::Bone, a.key@ + " "@ + a.from@ + "  ->  "@ + a.setting@ + " = "@ + a.value@)
                },
        );
        let keys_s = Seq::new(
            if r.keys@.len() < 6 { r.keys@.len() } else { 6 },
            |i: int|
                {
                    let k = r.keys@[i];
                    (ThemeColor::Bone, k.key@ + "  ->  "@ + k.lhs@ + "  "@ + k.desc@)
                },
        );
        assert(after_applied == after_error + applied_s);
        assert(after_keys == after_applied + keys_s);
        let counts_s = seq![
            (
                ThemeColor::BoneDim,
                decimal(r.applied@.len()) + " applied, "@ + decimal(r.keys@.len()) + " keybindings, "@ + decimal(
                    r.skipped@.len() + r.keys_skipped@.len(),
                ) + " skipped"@,
            ),
        ];
        assert(total as nat == r.skipped@.len() + r.keys_skipped@.len());
        assert(lines_of(lines@) =~= after_skipped + counts_s);
        let spec = spec_report_lines(*r);
        assert(spec == head + error_s + applied_s + keys_s + skipped_s + counts_s);
        assert(lines_of(lines@) =~= spec);
    }
    lines
}

} // verus!
