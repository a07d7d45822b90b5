use vstd::prelude::*;

use crate::distro::name_views;
use crate::text::{contains, has_prefix, has_substring, opt_str_view, starts_with};

verus! {

/// The versions a workspace environment is checked for, in order.
pub open spec fn known_distros() -> Seq<Seq<char>> {
    seq!["humble"@, "jazzy"@, "iron"@, "rolling"@]
}

/// The package whose name pins the version of a workspace environment.
pub open spec fn mutex_prefix() -> Seq<char> {
    "ros2-distro-mutex"@
}

/// The name prefix of the packages of version `d`.
pub open spec fn package_prefix(d: Seq<char>) -> Seq<char> {
    "ros-"@ + d + "-"@
}

/// Some package name among `names` marks version `d`: by the pinning package
/// when `by_mutex`, else by a package of that version.
pub open spec fn marks(names: Seq<Seq<char>>, d: Seq<char>, by_mutex: bool) -> bool {
    exists|i: int|
        0 <= i < names.len() && if by_mutex {
            has_prefix(#[trigger] names[i], mutex_prefix()) && has_substring(names[i], d)
        } else {
            has_prefix(#[trigger] names[i], package_prefix(d))
        }
}

/// The first of `ds` that the package names mark.
pub open spec fn first_marked(ds: Seq<Seq<char>>, names: Seq<Seq<char>>, by_mutex: bool) -> Option<
    Seq<char>,
>
    decreases ds.len(),
{
    if ds.len() == 0 {
        None
    } else if marks(names, ds[0], by_mutex) {
        Some(ds[0])
    } else {
        first_marked(ds.drop_first(), names, by_mutex)
    }
}

/// The version a workspace environment holds, judged from the names of its
/// installed packages: the pinning package decides first, then any package
/// of a known version.
pub open spec fn detected(names: Seq<Seq<char>>) -> Option<Seq<char>> {
    match first_marked(known_distros(), names, true) {
        Some(d) => Some(d),
        None => first_marked(known_distros(), names, false),
    }
}

fn package_prefix_of(d: &str) -> (r: String)
    ensures
        r@ == package_prefix(d@),
{
    let mut r = String::from_str("ros-");
    r.append(d);
    r.append("-");
    r
}

fn any_marks(names: &Vec<String>, d: &str, by_mutex: bool) -> (r: bool)
    ensures
        r == marks(name_views(names@), d@, by_mutex),
{
    let ghost ns = name_views(names@);
    let prefix = package_prefix_of(d);
    let mut i: usize = 0;
    while i < names.len()
        invariant
            ns == name_views(names@),
            prefix@ == package_prefix(d@),
            i <= names@.len(),
            forall|k: int|
                0 <= k < i ==> !(if by_mutex {
                    has_prefix(#[trigger] ns[k], mutex_prefix()) && has_substring(ns[k], d@)
                } else {
                    has_prefix(#[trigger] ns[k], package_prefix(d@))
                }),
        decreases names@.len() - i,
    {
        let n = names[i].as_str();
        let hit = if by_mutex {
            starts_with(n, "ros2-distro-mutex") && contains(n, d)
        } else {
            starts_with(n, prefix.as_str())
        };
        if hit {
            assert(ns[i as int] == n@);
            return true;
        }
        i = i + 1;
    }
    false
}

fn first_marked_of(names: &Vec<String>, by_mutex: bool) -> (r: Option<&'static str>)
    ensures
        opt_str_view(r) == first_marked(known_distros(), name_views(names@), by_mutex),
{
    let ds: Vec<&'static str> = vec!["humble", "jazzy", "iron", "rolling"];
    let ghost all = ds@.map_values(|d: &str| d@);
    assert(all =~= known_distros());
    let mut i: usize = 0;
    assert(all.skip(0) =~= all);
    while i < ds.len()
        invariant
            all == ds@.map_values(|d: &str| d@),
            all == known_distros(),
            i <= ds@.len(),
            first_marked(all, name_views(names@), by_mutex) == first_marked(
                all.skip(i as int),
                name_views(names@),
                by_mutex,
            ),
        decreases ds@.len() - i,
    {
        assert(all.skip(i as int)[0] == ds@[i as int]@);
        if any_marks(names, ds[i], by_mutex) {
            return Some(ds[i]);
        }
        assert(all.skip(i as int).drop_first() =~= all.skip(i + 1));
        i = i + 1;
    }
    None
}

/// The version held by a workspace environment whose installed packages
/// carry the names `names`.
pub fn detect_distro_in(names: &Vec<String>) -> (r: Option<String>)
    ensures
        r matches Some(d) ==> detected(name_views(names@)) == Some(d@),
        r is None ==> detected(name_views(names@)) is None,
{
    match first_marked_of(names, true) {
        Some(d) => Some(String::from_str(d)),
        None => match first_marked_of(names, false) {
            Some(d) => Some(String::from_str(d)),
            None => None,
        },
    }
}


/// Shell helpers that the workspace activation script defines and drops again.
pub open spec fn pixi_helpers() -> Seq<char> {
    r#"_rosenv_strip() {
  echo "$1" | tr ':' '\n' | grep -v "/opt/ros/" | tr '\n' ':' | sed 's/:$//'
}

_rosenv_append() {
  local var_name="$1" dir="$2"
  if [ -d "$dir" ]; then
    local current
    eval "current=\$$var_name"
    if [[ ":${current}:" != *":${dir}:"* ]]; then
      eval "export $var_name=\"${current:+${current}:}${dir}\""
    fi
  fi
}

"#@
}

/// Strips the canonical directory's entries from the list-valued variables.
pub open spec fn pixi_strip_lines() -> Seq<char> {
    "export PATH=$(_rosenv_strip \"$PATH\")\nexport PYTHONPATH=$(_rosenv_strip \"$PYTHONPATH\")\nexport PKG_CONFIG_PATH=$(_rosenv_strip \"$PKG_CONFIG_PATH\")\nexport CMAKE_PREFIX_PATH=$(_rosenv_strip \"$CMAKE_PREFIX_PATH\")\nexport AMENT_PREFIX_PATH=$(_rosenv_strip \"$AMENT_PREFIX_PATH\")\n"@
}

/// Appends the global installation of `d` to the search paths.
pub open spec fn global_block(d: Seq<char>) -> Seq<char> {
    let root = "/opt/ros/"@ + d;
    "\n# Append global ROS "@ + d + " paths\n"@ + "_rosenv_append AMENT_PREFIX_PATH \""@ + root
        + "\"\n"@ + "_rosenv_append CMAKE_PREFIX_PATH \""@ + root + "\"\n"@
        + "_rosenv_append PATH \""@ + root + "/bin\"\n"@ + "_rosenv_append PKG_CONFIG_PATH \""@
        + root + "/lib/pkgconfig\"\n"@ + "for _rosenv_pypath in \""@ + root
        + "\"/lib/python*/site-packages; do\n"@ + "  _rosenv_append PYTHONPATH \"$_rosenv_pypath\"\n"@
        + "done\n"@ + "unset _rosenv_pypath\n"@
}

pub open spec fn pixi_script_text(d: Seq<char>, append_global: bool) -> Seq<char> {
    pixi_helpers() + "# Strip inherited /opt/ros paths from parent shell\n"@ + pixi_strip_lines()
        + "\nexport ROS_DISTRO=\""@ + d + "\"\n"@ + (if append_global {
        global_block(d)
    } else {
        seq![]
    }) + "\nunset -f _rosenv_strip _rosenv_append\n"@
}

/// The script that activates a workspace environment holding version `d`;
/// with `append_global`, the global installation of `d` joins its paths.
pub fn generate_pixi_activate_script(distro: &str, append_global: bool) -> (r: String)
    ensures
        r@ == pixi_script_text(distro@, append_global),
{
    let mut r = String::from_str(r#"_rosenv_strip() {
  echo "$1" | tr ':' '\n' | grep -v "/opt/ros/" | tr '\n' ':' | sed 's/:$//'
}

_rosenv_append() {
  local var_name="$1" dir="$2"
  if [ -d "$dir" ]; then
    local current
    eval "current=\$$var_name"
    if [[ ":${current}:" != *":${dir}:"* ]]; then
      eval "export $var_name=\"${current:+${current}:}${dir}\""
    fi
  fi
}

"#);
    r.append("# Strip inherited /opt/ros paths from parent shell\n");
    r.append("export PATH=$(_rosenv_strip \"$PATH\")\nexport PYTHONPATH=$(_rosenv_strip \"$PYTHONPATH\")\nexport PKG_CONFIG_PATH=$(_rosenv_strip \"$PKG_CONFIG_PATH\")\nexport CMAKE_PREFIX_PATH=$(_rosenv_strip \"$CMAKE_PREFIX_PATH\")\nexport AMENT_PREFIX_PATH=$(_rosenv_strip \"$AMENT_PREFIX_PATH\")\n");
    r.append("\nexport ROS_DISTRO=\"");
    r.append(distro);
    r.append("\"\n");
    if append_global {
        let mut root = String::from_str("/opt/ros/");
        root.append(distro);
        let root = root.as_str();
        r.append("\n# Append global ROS ");
        r.append(distro);
        r.append(" paths\n");
        r.append("_rosenv_append AMENT_PREFIX_PATH \"");
        r.append(root);
        r.append("\"\n");
        r.append("_rosenv_append CMAKE_PREFIX_PATH \"");
        r.append(root);
        r.append("\"\n");
        r.append("_rosenv_append PATH \"");
        r.append(root);
        r.append("/bin\"\n");
        r.append("_rosenv_append PKG_CONFIG_PATH \"");
        r.append(root);
        r.append("/lib/pkgconfig\"\n");
        r.append("for _rosenv_pypath in \"");
        r.append(root);
        r.append("\"/lib/python*/site-packages; do\n");
        r.append("  _rosenv_append PYTHONPATH \"$_rosenv_pypath\"\n");
        r.append("done\n");
        r.append("unset _rosenv_pypath\n");
    }
    r.append("\nunset -f _rosenv_strip _rosenv_append\n");
    r
}

/// Lines that load the workspace's own build, the bash script before the
/// POSIX one.
pub open spec fn install_text(has_install_bash: bool, has_install_sh: bool) -> Seq<char> {
    if has_install_bash {
        "source install/setup.bash\nunset LD_LIBRARY_PATH\nunset DYLD_LIBRARY_PATH\n"@
    } else if has_install_sh {
        "source install/setup.sh\nunset LD_LIBRARY_PATH\nunset DYLD_LIBRARY_PATH\n"@
    } else {
        seq![]
    }
}

/// What `pixi activate` prints: for the detected version, a comment and the
/// activation script (with the global paths where the global entry exists),
/// then the workspace's own setup.
pub open spec fn pixi_output_text(
    detected: Option<Seq<char>>,
    global_exists: bool,
    has_install_bash: bool,
    has_install_sh: bool,
) -> Seq<char> {
    (match detected {
        Some(d) => if global_exists {
            "# rosenv: pixi has ROS "@ + d + ", appending global /opt/ros/"@ + d + "\n"@
                + pixi_script_text(d, true)
        } else {
            "# rosenv: pixi has ROS "@ + d + ", no matching global found\n"@ + pixi_script_text(
                d,
                false,
            )
        },
        None => "# rosenv: no ROS detected in pixi environment\n"@,
    }) + install_text(has_install_bash, has_install_sh)
}

pub fn pixi_activation_output(
    detected: Option<&str>,
    global_exists: bool,
    has_install_bash: bool,
    has_install_sh: bool,
) -> (r: String)
    ensures
        r@ == pixi_output_text(opt_str_view(detected), global_exists, has_install_bash, has_install_sh),
{
    let mut r = String::new();
    match detected {
        Some(d) => {
            r.append("# rosenv: pixi has ROS ");
            r.append(d);
            if global_exists {
                r.append(", appending global /opt/ros/");
                r.append(d);
                r.append("\n");
            } else {
                r.append(", no matching global found\n");
            }
            let script = generate_pixi_activate_script(d, global_exists);
            r.append(script.as_str());
        },
        None => {
            r.append("# rosenv: no ROS detected in pixi environment\n");
        },
    }
    if has_install_bash {
        r.append("source install/setup.bash\nunset LD_LIBRARY_PATH\nunset DYLD_LIBRARY_PATH\n");
    } else if has_install_sh {
        r.append("source install/setup.sh\nunset LD_LIBRARY_PATH\nunset DYLD_LIBRARY_PATH\n");
    }
    r
}

} // verus!
