//! The rule tables of the environment derivation engine.
//!
//! `library_rules` is applied to the names one level below the library
//! directory that the cache file speaks of, `typelib_rules` to the directories
//! that the library directory holds, `share_rules` and `etc_rules` to those of
//! the bundle's `share` and `etc`, and `bundle_rules` once, to the empty name.

use vstd::prelude::*;
use crate::interp::Arch;
use crate::rules::{Change, Check, Place, ProbeKind, Rule, RuleModel};

verus! {

/// A rule without conditions.
pub open spec fn plain(
    name: Seq<char>,
    prefix: bool,
    change: Change,
    var: Seq<char>,
    place: Place,
    text: Seq<char>,
) -> RuleModel {
    RuleModel { name, prefix, checks: Seq::empty(), change, var, place, text }
}

/// A rule with conditions.
pub open spec fn guarded(
    name: Seq<char>,
    prefix: bool,
    checks: Seq<(ProbeKind, Place, Seq<char>)>,
    change: Change,
    var: Seq<char>,
    place: Place,
    text: Seq<char>,
) -> RuleModel {
    RuleModel { name, prefix, checks, change, var, place, text }
}

/// Where the host keeps the video acceleration drivers of `arch`.
pub open spec fn host_dri_dir(arch: Arch) -> Seq<char> {
    match arch {
        Arch::X86_64 => "/usr/lib/x86_64-linux-gnu/dri"@,
        Arch::Aarch64 => "/usr/lib/aarch64-linux-gnu/dri"@,
    }
}

/// The rules for the directories of the library tree.
pub open spec fn library_rules(arch: Arch) -> Seq<RuleModel> {
    seq![
        guarded(
            "python"@,
            true,
            seq![(ProbeKind::ReadOnly, Place::Root, ""@)],
            Change::Assign,
            "PYTHONDONTWRITEBYTECODE"@,
            Place::Literal,
            "1"@,
        ),
        plain("perl"@, true, Change::Prepend, "PERLLIB"@, Place::Dir, ""@),
        plain("gconv"@, false, Change::Prepend, "GCONV_PATH"@, Place::Dir, ""@),
        guarded(
            "gio"@,
            false,
            seq![(ProbeKind::Exists, Place::Below, "modules"@)],
            Change::Assign,
            "GIO_MODULE_DIR"@,
            Place::Below,
            "modules"@,
        ),
        plain("dri"@, false, Change::Assign, "LIBGL_DRIVERS_PATH"@, Place::Dir, ""@),
        plain(
            "dri"@,
            false,
            Change::Prepend,
            "LIBVA_DRIVERS_PATH"@,
            Place::Literal,
            "/usr/lib/dri"@,
        ),
        plain(
            "dri"@,
            false,
            Change::Prepend,
            "LIBVA_DRIVERS_PATH"@,
            Place::Literal,
            "/usr/lib64/dri"@,
        ),
        plain(
            "dri"@,
            false,
            Change::Prepend,
            "LIBVA_DRIVERS_PATH"@,
            Place::Literal,
            host_dri_dir(arch),
        ),
        plain("dri"@, false, Change::Prepend, "LIBVA_DRIVERS_PATH"@, Place::Dir, ""@),
        plain("gbm"@, false, Change::Assign, "GBM_BACKENDS_PATH"@, Place::Dir, ""@),
        plain("xtables"@, false, Change::Assign, "XTABLES_LIBDIR"@, Place::Dir, ""@),
        plain("spa-"@, true, Change::Assign, "SPA_PLUGIN_DIR"@, Place::Dir, ""@),
        plain("pipewire-"@, true, Change::Assign, "PIPEWIRE_MODULE_DIR"@, Place::Dir, ""@),
        plain("gtk-"@, true, Change::Prepend, "GTK_PATH"@, Place::Dir, ""@),
        plain("gtk-"@, true, Change::Assign, "GTK_EXE_PREFIX"@, Place::Root, ""@),
        plain("gtk-"@, true, Change::Assign, "GTK_DATA_PREFIX"@, Place::Root, ""@),
        plain(
            "gtk-"@,
            true,
            Change::Assign,
            "GTK_IM_MODULE_FILE"@,
            Place::FileBelow,
            "immodules.cache"@,
        ),
        plain("folks"@, false, Change::Assign, "FOLKS_BACKEND_PATH"@, Place::DirBelow, "backends"@),
        guarded(
            "qt"@,
            true,
            seq![
                (ProbeKind::Exists, Place::Below, "plugins"@),
                (ProbeKind::Missing, Place::InBin, "qt.conf"@),
            ],
            Change::Prepend,
            "QT_PLUGIN_PATH"@,
            Place::Below,
            "plugins"@,
        ),
        plain("babl-"@, true, Change::Assign, "BABL_PATH"@, Place::Dir, ""@),
        plain("gegl-"@, true, Change::Assign, "GEGL_PATH"@, Place::Dir, ""@),
        guarded(
            "libdecor"@,
            false,
            seq![(ProbeKind::Exists, Place::Below, "plugins-1"@)],
            Change::Assign,
            "LIBDECOR_PLUGIN_DIR"@,
            Place::Below,
            "plugins-1"@,
        ),
        guarded(
            "tcl"@,
            true,
            seq![(ProbeKind::Exists, Place::Below, "msgs"@)],
            Change::Prepend,
            "TCL_LIBRARY"@,
            Place::Dir,
            ""@,
        ),
        guarded(
            "tcl"@,
            true,
            seq![
                (ProbeKind::Exists, Place::Below, "msgs"@),
                (ProbeKind::Exists, Place::Sibling, "tk"@),
            ],
            Change::Prepend,
            "TK_LIBRARY"@,
            Place::Sibling,
            "tk"@,
        ),
        plain("gstreamer-"@, true, Change::Prepend, "GST_PLUGIN_PATH"@, Place::Dir, ""@),
        plain("gstreamer-"@, true, Change::Prepend, "GST_PLUGIN_SYSTEM_PATH"@, Place::Dir, ""@),
        plain("gstreamer-"@, true, Change::Prepend, "GST_PLUGIN_SYSTEM_PATH_1_0"@, Place::Dir, ""@),
        guarded(
            "gstreamer-"@,
            true,
            seq![(ProbeKind::Exists, Place::Below, "gst-plugin-scanner"@)],
            Change::Assign,
            "GST_PLUGIN_SCANNER"@,
            Place::Below,
            "gst-plugin-scanner"@,
        ),
        plain(
            "gdk-pixbuf-"@,
            true,
            Change::Assign,
            "GDK_PIXBUF_MODULEDIR"@,
            Place::DirBelow,
            "loaders"@,
        ),
        plain(
            "gdk-pixbuf-"@,
            true,
            Change::Assign,
            "GDK_PIXBUF_MODULE_FILE"@,
            Place::FileBelow,
            "loaders.cache"@,
        ),
    ]
}

/// The rule for the directories that the library directory itself holds.
pub open spec fn typelib_rules() -> Seq<RuleModel> {
    seq![plain("girepository-"@, true, Change::Assign, "GI_TYPELIB_PATH"@, Place::Dir, ""@)]
}

/// The rules for the directories of the bundle's `share`.
pub open spec fn share_rules() -> Seq<RuleModel> {
    seq![
        plain(
            "glvnd"@,
            false,
            Change::PrependData,
            "__EGL_VENDOR_LIBRARY_DIRS"@,
            Place::Literal,
            "glvnd/egl_vendor.d"@,
        ),
        plain(
            "vulkan"@,
            false,
            Change::PrependDrivers,
            "VK_DRIVER_FILES"@,
            Place::Literal,
            "vulkan/icd.d"@,
        ),
        guarded(
            "X11"@,
            false,
            seq![
                (ProbeKind::Missing, Place::Literal, "/usr/share/X11/xkb"@),
                (ProbeKind::Exists, Place::Below, "xkb"@),
            ],
            Change::Assign,
            "XKB_CONFIG_ROOT"@,
            Place::Below,
            "xkb"@,
        ),
        guarded(
            "libthai"@,
            false,
            seq![(ProbeKind::Exists, Place::Below, "thbrk.tri"@)],
            Change::Assign,
            "LIBTHAI_DICTDIR"@,
            Place::Dir,
            ""@,
        ),
        plain(
            "glib-2.0"@,
            false,
            Change::PrependData,
            "GSETTINGS_SCHEMA_DIR"@,
            Place::Literal,
            "glib-2.0/schemas"@,
        ),
        plain("terminfo"@, false, Change::Assign, "TERMINFO"@, Place::Dir, ""@),
        guarded(
            "file"@,
            false,
            seq![(ProbeKind::Exists, Place::Below, "misc/magic.mgc"@)],
            Change::Assign,
            "MAGIC"@,
            Place::Below,
            "misc/magic.mgc"@,
        ),
    ]
}

/// The rule for the directories of the bundle's `etc`.
pub open spec fn etc_rules() -> Seq<RuleModel> {
    seq![
        guarded(
            "fonts"@,
            false,
            seq![
                (ProbeKind::Missing, Place::Literal, "/etc/fonts/fonts.conf"@),
                (ProbeKind::Exists, Place::Below, "fonts.conf"@),
            ],
            Change::Assign,
            "FONTCONFIG_FILE"@,
            Place::Below,
            "fonts.conf"@,
        ),
    ]
}

/// The rule that speaks of the bundle as a whole.
pub open spec fn bundle_rules() -> Seq<RuleModel> {
    seq![
        guarded(
            ""@,
            true,
            seq![(ProbeKind::Executable, Place::InBin, "gio-launch-desktop"@)],
            Change::Assign,
            "GIO_LAUNCH_DESKTOP"@,
            Place::InBin,
            "gio-launch-desktop"@,
        ),
    ]
}

/// Adds to `table` a rule without conditions.
fn add_plain(
    table: &mut Vec<Rule>,
    name: &str,
    prefix: bool,
    change: Change,
    var: &str,
    place: Place,
    text: &str,
)
    ensures
        final(table).deep_view() == old(table).deep_view().push(
            plain(name@, prefix, change, var@, place, text@),
        ),
{
    let checks: Vec<Check> = Vec::new();
    assert(checks.deep_view() =~= Seq::empty());
    let rule = Rule {
        name: name.to_owned(),
        prefix,
        checks,
        change,
        var: var.to_owned(),
        place,
        text: text.to_owned(),
    };
    let ghost before = table.deep_view();
    table.push(rule);
    assert(table.deep_view() =~= before.push(rule.deep_view()));
}

/// Adds to `table` a rule with one condition.
fn add_guarded(
    table: &mut Vec<Rule>,
    name: &str,
    prefix: bool,
    kind: ProbeKind,
    at: Place,
    entry: &str,
    change: Change,
    var: &str,
    place: Place,
    text: &str,
)
    ensures
        final(table).deep_view() == old(table).deep_view().push(
            guarded(name@, prefix, seq![(kind, at, entry@)], change, var@, place, text@),
        ),
{
    let mut checks: Vec<Check> = Vec::new();
    checks.push(Check { kind, place: at, text: entry.to_owned() });
    assert(checks.deep_view() =~= seq![(kind, at, entry@)]);
    let rule = Rule {
        name: name.to_owned(),
        prefix,
        checks,
        change,
        var: var.to_owned(),
        place,
        text: text.to_owned(),
    };
    let ghost before = table.deep_view();
    table.push(rule);
    assert(table.deep_view() =~= before.push(rule.deep_view()));
}

/// Adds to `table` a rule with two conditions.
fn add_guarded_twice(
    table: &mut Vec<Rule>,
    name: &str,
    prefix: bool,
    first: (ProbeKind, Place, &str),
    second: (ProbeKind, Place, &str),
    change: Change,
    var: &str,
    place: Place,
    text: &str,
)
    ensures
        final(table).deep_view() == old(table).deep_view().push(
            guarded(
                name@,
                prefix,
                seq![(first.0, first.1, first.2@), (second.0, second.1, second.2@)],
                change,
                var@,
                place,
                text@,
            ),
        ),
{
    let mut checks: Vec<Check> = Vec::new();
    checks.push(Check { kind: first.0, place: first.1, text: first.2.to_owned() });
    checks.push(Check { kind: second.0, place: second.1, text: second.2.to_owned() });
    assert(checks.deep_view() =~= seq![
        (first.0, first.1, first.2@),
        (second.0, second.1, second.2@),
    ]);
    let rule = Rule {
        name: name.to_owned(),
        prefix,
        checks,
        change,
        var: var.to_owned(),
        place,
        text: text.to_owned(),
    };
    let ghost before = table.deep_view();
    table.push(rule);
    assert(table.deep_view() =~= before.push(rule.deep_view()));
}

/// The rules for the directories of the library tree.
pub fn library_rule_table(arch: Arch) -> (table: Vec<Rule>)
    ensures
        table.deep_view() == library_rules(arch),
{
    let mut t: Vec<Rule> = Vec::new();
    assert(t.deep_view() =~= Seq::empty());
    add_guarded(
        &mut t,
        "python",
        true,
        ProbeKind::ReadOnly,
        Place::Root,
        "",
        Change::Assign,
        "PYTHONDONTWRITEBYTECODE",
        Place::Literal,
        "1",
    );
    add_plain(&mut t, "perl", true, Change::Prepend, "PERLLIB", Place::Dir, "");
    add_plain(&mut t, "gconv", false, Change::Prepend, "GCONV_PATH", Place::Dir, "");
    add_guarded(
        &mut t,
        "gio",
        false,
        ProbeKind::Exists,
        Place::Below,
        "modules",
        Change::Assign,
        "GIO_MODULE_DIR",
        Place::Below,
        "modules",
    );
    add_plain(&mut t, "dri", false, Change::Assign, "LIBGL_DRIVERS_PATH", Place::Dir, "");
    add_plain(
        &mut t,
        "dri",
        false,
        Change::Prepend,
        "LIBVA_DRIVERS_PATH",
        Place::Literal,
        "/usr/lib/dri",
    );
    add_plain(
        &mut t,
        "dri",
        false,
        Change::Prepend,
        "LIBVA_DRIVERS_PATH",
        Place::Literal,
        "/usr/lib64/dri",
    );
    let host = match arch {
        Arch::X86_64 => "/usr/lib/x86_64-linux-gnu/dri",
        Arch::Aarch64 => "/usr/lib/aarch64-linux-gnu/dri",
    };
    add_plain(&mut t, "dri", false, Change::Prepend, "LIBVA_DRIVERS_PATH", Place::Literal, host);
    add_plain(&mut t, "dri", false, Change::Prepend, "LIBVA_DRIVERS_PATH", Place::Dir, "");
    add_plain(&mut t, "gbm", false, Change::Assign, "GBM_BACKENDS_PATH", Place::Dir, "");
    add_plain(&mut t, "xtables", false, Change::Assign, "XTABLES_LIBDIR", Place::Dir, "");
    add_plain(&mut t, "spa-", true, Change::Assign, "SPA_PLUGIN_DIR", Place::Dir, "");
    add_plain(&mut t, "pipewire-", true, Change::Assign, "PIPEWIRE_MODULE_DIR", Place::Dir, "");
    add_plain(&mut t, "gtk-", true, Change::Prepend, "GTK_PATH", Place::Dir, "");
    add_plain(&mut t, "gtk-", true, Change::Assign, "GTK_EXE_PREFIX", Place::Root, "");
    add_plain(&mut t, "gtk-", true, Change::Assign, "GTK_DATA_PREFIX", Place::Root, "");
    add_plain(
        &mut t,
        "gtk-",
        true,
        Change::Assign,
        "GTK_IM_MODULE_FILE",
        Place::FileBelow,
        "immodules.cache",
    );
    add_plain(
        &mut t,
        "folks",
        false,
        Change::Assign,
        "FOLKS_BACKEND_PATH",
        Place::DirBelow,
        "backends",
    );
    add_guarded_twice(
        &mut t,
        "qt",
        true,
        (ProbeKind::Exists, Place::Below, "plugins"),
        (ProbeKind::Missing, Place::InBin, "qt.conf"),
        Change::Prepend,
        "QT_PLUGIN_PATH",
        Place::Below,
        "plugins",
    );
    add_plain(&mut t, "babl-", true, Change::Assign, "BABL_PATH", Place::Dir, "");
    add_plain(&mut t, "gegl-", true, Change::Assign, "GEGL_PATH", Place::Dir, "");
    add_guarded(
        &mut t,
        "libdecor",
        false,
        ProbeKind::Exists,
        Place::Below,
        "plugins-1",
        Change::Assign,
        "LIBDECOR_PLUGIN_DIR",
        Place::Below,
        "plugins-1",
    );
    add_guarded(
        &mut t,
        "tcl",
        true,
        ProbeKind::Exists,
        Place::Below,
        "msgs",
        Change::Prepend,
        "TCL_LIBRARY",
        Place::Dir,
        "",
    );
    add_guarded_twice(
        &mut t,
        "tcl",
        true,
        (ProbeKind::Exists, Place::Below, "msgs"),
        (ProbeKind::Exists, Place::Sibling, "tk"),
        Change::Prepend,
        "TK_LIBRARY",
        Place::Sibling,
        "tk",
    );
    add_plain(&mut t, "gstreamer-", true, Change::Prepend, "GST_PLUGIN_PATH", Place::Dir, "");
    add_plain(
        &mut t,
        "gstreamer-",
        true,
        Change::Prepend,
        "GST_PLUGIN_SYSTEM_PATH",
        Place::Dir,
        "",
    );
    add_plain(
        &mut t,
        "gstreamer-",
        true,
        Change::Prepend,
        "GST_PLUGIN_SYSTEM_PATH_1_0",
        Place::Dir,
        "",
    );
    add_guarded(
        &mut t,
        "gstreamer-",
        true,
        ProbeKind::Exists,
        Place::Below,
        "gst-plugin-scanner",
        Change::Assign,
        "GST_PLUGIN_SCANNER",
        Place::Below,
        "gst-plugin-scanner",
    );
    add_plain(
        &mut t,
        "gdk-pixbuf-",
        true,
        Change::Assign,
        "GDK_PIXBUF_MODULEDIR",
        Place::DirBelow,
        "loaders",
    );
    add_plain(
        &mut t,
        "gdk-pixbuf-",
        true,
        Change::Assign,
        "GDK_PIXBUF_MODULE_FILE",
        Place::FileBelow,
        "loaders.cache",
    );
    assert(t.deep_view() =~= library_rules(arch));
    t
}

/// The rule for the directories that the library directory itself holds.
pub fn typelib_rule_table() -> (table: Vec<Rule>)
    ensures
        table.deep_view() == typelib_rules(),
{
    let mut t: Vec<Rule> = Vec::new();
    assert(t.deep_view() =~= Seq::empty());
    add_plain(&mut t, "girepository-", true, Change::Assign, "GI_TYPELIB_PATH", Place::Dir, "");
    assert(t.deep_view() =~= typelib_rules());
    t
}

/// The rules for the directories of the bundle's `share`.
pub fn share_rule_table() -> (table: Vec<Rule>)
    ensures
        table.deep_view() == share_rules(),
{
    let mut t: Vec<Rule> = Vec::new();
    assert(t.deep_view() =~= Seq::empty());
    add_plain(
        &mut t,
        "glvnd",
        false,
        Change::PrependData,
        "__EGL_VENDOR_LIBRARY_DIRS",
        Place::Literal,
        "glvnd/egl_vendor.d",
    );
    add_plain(
        &mut t,
        "vulkan",
        false,
        Change::PrependDrivers,
        "VK_DRIVER_FILES",
        Place::Literal,
        "vulkan/icd.d",
    );
    add_guarded_twice(
        &mut t,
        "X11",
        false,
        (ProbeKind::Missing, Place::Literal, "/usr/share/X11/xkb"),
        (ProbeKind::Exists, Place::Below, "xkb"),
        Change::Assign,
        "XKB_CONFIG_ROOT",
        Place::Below,
        "xkb",
    );
    add_guarded(
        &mut t,
        "libthai",
        false,
        ProbeKind::Exists,
        Place::Below,
        "thbrk.tri",
        Change::Assign,
        "LIBTHAI_DICTDIR",
        Place::Dir,
        "",
    );
    add_plain(
        &mut t,
        "glib-2.0",
        false,
        Change::PrependData,
        "GSETTINGS_SCHEMA_DIR",
        Place::Literal,
        "glib-2.0/schemas",
    );
    add_plain(&mut t, "terminfo", false, Change::Assign, "TERMINFO", Place::Dir, "");
    add_guarded(
        &mut t,
        "file",
        false,
        ProbeKind::Exists,
        Place::Below,
        "misc/magic.mgc",
        Change::Assign,
        "MAGIC",
        Place::Below,
        "misc/magic.mgc",
    );
    assert(t.deep_view() =~= share_rules());
    t
}

/// The rule for the directories of the bundle's `etc`.
pub fn etc_rule_table() -> (table: Vec<Rule>)
    ensures
        table.deep_view() == etc_rules(),
{
    let mut t: Vec<Rule> = Vec::new();
    assert(t.deep_view() =~= Seq::empty());
    add_guarded_twice(
        &mut t,
        "fonts",
        false,
        (ProbeKind::Missing, Place::Literal, "/etc/fonts/fonts.conf"),
        (ProbeKind::Exists, Place::Below, "fonts.conf"),
        Change::Assign,
        "FONTCONFIG_FILE",
        Place::Below,
        "fonts.conf",
    );
    assert(t.deep_view() =~= etc_rules());
    t
}

/// The rule that speaks of the bundle as a whole.
pub fn bundle_rule_table() -> (table: Vec<Rule>)
    ensures
        table.deep_view() == bundle_rules(),
{
    let mut t: Vec<Rule> = Vec::new();
    assert(t.deep_view() =~= Seq::empty());
    add_guarded(
        &mut t,
        "",
        true,
        ProbeKind::Executable,
        Place::InBin,
        "gio-launch-desktop",
        Change::Assign,
        "GIO_LAUNCH_DESKTOP",
        Place::InBin,
        "gio-launch-desktop",
    );
    assert(t.deep_view() =~= bundle_rules());
    t
}

} // verus!
