use vstd::prelude::*;

use crate::distro::{canonical_path, distro_path, name_views, validate_distro, LinkState, LinkView};
use crate::doctor::{decimal, decimal_of};
use crate::error::RosenvError;
use crate::text::{has_substring, join_path, joined, occurs_at, opt_str_view, str_eq};

verus! {

/// The environment variables that belong to an activated version, cleared
/// on every switch.
pub open spec fn sdk_vars() -> Seq<Seq<char>> {
    seq![
        "ROS_DISTRO"@,
        "ROS_VERSION"@,
        "ROS_PYTHON_VERSION"@,
        "AMENT_PREFIX_PATH"@,
        "CMAKE_PREFIX_PATH"@,
        "COLCON_PREFIX_PATH"@,
        "PYTHONPATH"@,
        "LD_LIBRARY_PATH"@,
        "DYLD_LIBRARY_PATH"@,
        "PKG_CONFIG_PATH"@,
    ]
}

/// One `unset` line.
pub open spec fn unset_line(var: Seq<char>) -> Seq<char> {
    "unset "@ + var + "\n"@
}

/// An `unset` line for each of `vars`, in order.
pub open spec fn unset_lines(vars: Seq<Seq<char>>) -> Seq<char>
    decreases vars.len(),
{
    if vars.len() == 0 {
        seq![]
    } else {
        unset_lines(vars.drop_last()) + unset_line(vars.last())
    }
}

/// Drops the canonical directory's entries from `PATH`.
pub open spec fn strip_path_line() -> Seq<char> {
    "export PATH=$(echo $PATH | tr ':' '\\n' | grep -v '/opt/ros/' | tr '\\n' ':')\n"@
}

/// What clears a previously activated version.
pub open spec fn cleanup_text() -> Seq<char> {
    strip_path_line() + unset_lines(sdk_vars())
}

pub open spec fn deactivation_text() -> Seq<char> {
    "# Deactivate ROS 2 environment\n"@ + cleanup_text()
}

/// The setup script that a shell loads.
pub open spec fn setup_file_of(shell: Seq<char>) -> Seq<char> {
    if shell == "zsh"@ {
        "setup.zsh"@
    } else if shell == "bash"@ {
        "setup.bash"@
    } else {
        "setup.sh"@
    }
}

/// The setup script of `distro`'s canonical entry for `shell`.
pub open spec fn setup_path_of(distro: Seq<char>, shell: Seq<char>) -> Seq<char> {
    joined(canonical_path(distro), setup_file_of(shell))
}

pub open spec fn activation_text(distro: Seq<char>, setup_path: Seq<char>) -> Seq<char> {
    "# Clean up previous ROS environment\n"@ + cleanup_text() + "\n# Activate ROS 2 "@ + distro
        + "\n"@ + "export ROS_DISTRO="@ + distro + "\n"@ + "source "@ + setup_path + "\n"@
}

fn cleanup_block() -> (r: String)
    ensures
        r@ == cleanup_text(),
{
    let vars: Vec<&str> = vec![
        "ROS_DISTRO",
        "ROS_VERSION",
        "ROS_PYTHON_VERSION",
        "AMENT_PREFIX_PATH",
        "CMAKE_PREFIX_PATH",
        "COLCON_PREFIX_PATH",
        "PYTHONPATH",
        "LD_LIBRARY_PATH",
        "DYLD_LIBRARY_PATH",
        "PKG_CONFIG_PATH",
    ];
    let ghost all = vars@.map_values(|v: &str| v@);
    assert(all =~= sdk_vars());
    let mut r = String::from_str(
        "export PATH=$(echo $PATH | tr ':' '\\n' | grep -v '/opt/ros/' | tr '\\n' ':')\n",
    );
    let mut i: usize = 0;
    while i < vars.len()
        invariant
            i <= vars@.len(),
            all == vars@.map_values(|v: &str| v@),
            r@ == strip_path_line() + unset_lines(all.take(i as int)),
        decreases vars@.len() - i,
    {
        assert(all.take(i + 1).drop_last() =~= all.take(i as int));
        r.append("unset ");
        r.append(vars[i]);
        r.append("\n");
        i = i + 1;
    }
    assert(all.take(i as int) =~= all);
    r
}

pub fn generate_deactivation_script() -> (r: String)
    ensures
        r@ == deactivation_text(),
{
    let mut r = String::from_str("# Deactivate ROS 2 environment\n");
    let c = cleanup_block();
    r.append(c.as_str());
    r
}

/// The setup script that `shell` loads from a canonical entry.
pub fn setup_file_for(shell: &str) -> (r: &'static str)
    ensures
        r@ == setup_file_of(shell@),
{
    if str_eq(shell, "zsh") {
        "setup.zsh"
    } else if str_eq(shell, "bash") {
        "setup.bash"
    } else {
        "setup.sh"
    }
}

/// The path of the setup script that activating `distro` in `shell` loads.
pub fn activation_setup_path(distro: &str, shell: &str) -> (r: String)
    ensures
        r@ == setup_path_of(distro@, shell@),
{
    let entry = distro_path(distro);
    join_path(entry.as_str(), setup_file_for(shell))
}

/// Which of the known setup scripts a canonical entry holds.
#[derive(Debug, Clone, Copy, PartialEq, Eq)]
pub struct SetupFiles {
    pub zsh: bool,
    pub bash: bool,
    pub sh: bool,
}

/// The entry holds the setup script that `shell` loads.
pub open spec fn holds_own(shell: Seq<char>, files: SetupFiles) -> bool {
    if shell == "zsh"@ {
        files.zsh
    } else if shell == "bash"@ {
        files.bash
    } else {
        files.sh
    }
}

/// The setup script that activation loads: the shell's own where the entry
/// holds it, else the first held of `setup.sh`, `setup.bash`, `setup.zsh`;
/// none where the entry holds no known setup script.
pub open spec fn chosen_setup(shell: Seq<char>, files: SetupFiles) -> Option<Seq<char>> {
    if holds_own(shell, files) {
        Some(setup_file_of(shell))
    } else if files.sh {
        Some("setup.sh"@)
    } else if files.bash {
        Some("setup.bash"@)
    } else if files.zsh {
        Some("setup.zsh"@)
    } else {
        None
    }
}

/// The setup script that activating in `shell` loads from an entry holding `files`.
pub fn chosen_setup_file(shell: &str, files: &SetupFiles) -> (r: Option<&'static str>)
    ensures
        opt_str_view(r) == chosen_setup(shell@, *files),
{
    let own = if str_eq(shell, "zsh") {
        files.zsh
    } else if str_eq(shell, "bash") {
        files.bash
    } else {
        files.sh
    };
    if own {
        Some(setup_file_for(shell))
    } else if files.sh {
        Some("setup.sh")
    } else if files.bash {
        Some("setup.bash")
    } else if files.zsh {
        Some("setup.zsh")
    } else {
        None
    }
}

/// The script that switches the calling shell to `distro`. `entry_exists`
/// says whether the canonical entry `distro_path(distro)` exists, `files`
/// which known setup scripts it holds.
pub fn generate_activation_script(
    distro: &str,
    shell: &str,
    entry_exists: bool,
    files: &SetupFiles,
) -> (r: Result<String, RosenvError>)
    ensures
        !entry_exists ==> (r matches Err(RosenvError::NotFound { distro: d }) && d@ == distro@),
        entry_exists && chosen_setup(shell@, *files) is None ==> (r matches Err(
            RosenvError::SetupFileMissing { path: p },
        ) && p@ == setup_path_of(distro@, shell@)),
        entry_exists && chosen_setup(shell@, *files) is Some ==> (r matches Ok(s) && s@
            == activation_text(
            distro@,
            joined(canonical_path(distro@), chosen_setup(shell@, *files)->0),
        )),
{
    let entry = match validate_distro(distro, entry_exists) {
        Ok(p) => p,
        Err(e) => return Err(e),
    };
    let file = match chosen_setup_file(shell, files) {
        Some(f) => f,
        None => {
            return Err(
                RosenvError::SetupFileMissing { path: join_path(entry.as_str(), setup_file_for(shell)) },
            );
        },
    };
    let setup_path = join_path(entry.as_str(), file);
    let mut r = String::from_str("# Clean up previous ROS environment\n");
    let c = cleanup_block();
    r.append(c.as_str());
    r.append("\n# Activate ROS 2 ");
    r.append(distro);
    r.append("\n");
    r.append("export ROS_DISTRO=");
    r.append(distro);
    r.append("\n");
    r.append("source ");
    r.append(setup_path.as_str());
    r.append("\n");
    Ok(r)
}

/// With the entry present, activation fails if and only if the entry holds
/// none of the known setup scripts.
pub proof fn lemma_activation_needs_some_setup(shell: Seq<char>, files: SetupFiles)
    ensures
        chosen_setup(shell, files) is None <==> (!files.zsh && !files.bash && !files.sh),
{
}

proof fn lemma_occurs_in_context(p: Seq<char>, s: Seq<char>, q: Seq<char>, n: Seq<char>, i: int)
    requires
        occurs_at(s, n, i),
    ensures
        occurs_at(p + s + q, n, p.len() + i),
{
    assert((p + s + q).subrange(p.len() + i, p.len() + i + n.len()) =~= s.subrange(i, i + n.len()));
}

proof fn lemma_unset_lines_cover(vars: Seq<Seq<char>>, k: int)
    requires
        0 <= k < vars.len(),
    ensures
        has_substring(unset_lines(vars), unset_line(vars[k])),
    decreases vars.len(),
{
    let prev = unset_lines(vars.drop_last());
    let last = unset_line(vars.last());
    if k == vars.len() - 1 {
        assert((prev + last).subrange(prev.len() as int, (prev.len() + last.len()) as int) =~= last);
        assert(occurs_at(unset_lines(vars), last, prev.len() as int));
    } else {
        lemma_unset_lines_cover(vars.drop_last(), k);
        let i = choose|i: int| occurs_at(prev, unset_line(vars.drop_last()[k]), i);
        lemma_occurs_in_context(seq![], prev, last, unset_line(vars[k]), i);
        assert(seq![] + prev + last =~= unset_lines(vars));
    }
}

/// The deactivation script unsets every variable of the fixed set; it takes
/// no input, so this holds whatever the current environment.
pub proof fn lemma_deactivation_unsets_all()
    ensures
        forall|k: int|
            0 <= k < sdk_vars().len() ==> has_substring(
                deactivation_text(),
                unset_line(#[trigger] sdk_vars()[k]),
            ),
{
    assert forall|k: int| 0 <= k < sdk_vars().len() implies has_substring(
        deactivation_text(),
        unset_line(#[trigger] sdk_vars()[k]),
    ) by {
        lemma_unset_lines_cover(sdk_vars(), k);
        let i = choose|i: int| occurs_at(unset_lines(sdk_vars()), unset_line(sdk_vars()[k]), i);
        let head = "# Deactivate ROS 2 environment\n"@ + strip_path_line();
        lemma_occurs_in_context(head, unset_lines(sdk_vars()), seq![], unset_line(sdk_vars()[k]), i);
        assert(head + unset_lines(sdk_vars()) + seq![] =~= deactivation_text());
    }
}

/// Activation clears the same fixed set of variables before it sets the
/// version.
pub proof fn lemma_activation_unsets_all(distro: Seq<char>, setup_path: Seq<char>)
    ensures
        forall|k: int|
            0 <= k < sdk_vars().len() ==> has_substring(
                activation_text(distro, setup_path),
                unset_line(#[trigger] sdk_vars()[k]),
            ),
{
    assert forall|k: int| 0 <= k < sdk_vars().len() implies has_substring(
        activation_text(distro, setup_path),
        unset_line(#[trigger] sdk_vars()[k]),
    ) by {
        lemma_unset_lines_cover(sdk_vars(), k);
        let i = choose|i: int| occurs_at(unset_lines(sdk_vars()), unset_line(sdk_vars()[k]), i);
        let head = "# Clean up previous ROS environment\n"@ + strip_path_line();
        let rest = "\n# Activate ROS 2 "@ + distro + "\n"@ + "export ROS_DISTRO="@ + distro + "\n"@
            + "source "@ + setup_path + "\n"@;
        lemma_occurs_in_context(head, unset_lines(sdk_vars()), rest, unset_line(sdk_vars()[k]), i);
        assert(head + unset_lines(sdk_vars()) + rest =~= activation_text(distro, setup_path));
    }
}

/// The last component of a `/`-separated path.
pub open spec fn after_last_slash(s: Seq<char>) -> Seq<char>
    decreases s.len(),
{
    if s.len() == 0 {
        s
    } else if s.last() == '/' {
        seq![]
    } else {
        after_last_slash(s.drop_last()).push(s.last())
    }
}

/// The shell named by the login shell's path, or `bash` when none is set.
pub open spec fn shell_name_of(shell_var: Option<Seq<char>>) -> Seq<char> {
    match shell_var {
        Some(s) => after_last_slash(s),
        None => "bash"@,
    }
}

proof fn lemma_after_last_slash(s: Seq<char>, k: int)
    requires
        0 <= k <= s.len(),
        k == 0 || s[k - 1] == '/',
        forall|j: int| k <= j < s.len() ==> s[j] != '/',
    ensures
        after_last_slash(s) == s.subrange(k, s.len() as int),
    decreases s.len(),
{
    if s.len() > 0 && k < s.len() {
        lemma_after_last_slash(s.drop_last(), k);
        assert(s.subrange(k, s.len() as int) =~= s.drop_last().subrange(k, s.len() - 1).push(s.last()));
    } else if s.len() > 0 {
        assert(s.subrange(k, s.len() as int) =~= seq![]);
    }
}

/// The shell to activate for, from the value of the login shell variable.
pub fn shell_name(shell_var: Option<&str>) -> (r: String)
    ensures
        r@ == shell_name_of(opt_str_view(shell_var)),
{
    match shell_var {
        None => String::from_str("bash"),
        Some(s) => {
            let len = s.unicode_len();
            let mut k: usize = len;
            while k > 0 && s.get_char(k - 1) != '/'
                invariant
                    len == s@.len(),
                    k <= len,
                    forall|j: int| k <= j < len ==> s@[j] != '/',
                decreases k,
            {
                k = k - 1;
            }
            proof {
                lemma_after_last_slash(s@, k as int);
            }
            String::from_str(s.substring_char(k, len))
        },
    }
}

pub open spec fn init_head() -> Seq<char> {
    "# ROS 2 Environment Manager (rosenv)\n# Generated by: rosenv init "@
}

pub open spec fn init_tail() -> Seq<char> {
    r#"

rosenv() {
    case "$1" in
        activate)
            if [ -z "$2" ]; then
                echo "Error: rosenv activate requires a distribution name"
                echo "Available: $(command rosenv list --short 2>/dev/null || echo 'run rosenv setup')"
                return 1
            fi

            local script
            script=$(command rosenv activate "$2" 2>&1)
            if [ $? -eq 0 ]; then
                eval "$script"
                echo "✓ Switched to ROS 2 $2"
            else
                echo "$script" >&2
                return 1
            fi
            ;;

        deactivate)
            if [ -z "$ROS_DISTRO" ]; then
                echo "No ROS distribution active"
                return 1
            fi

            local distro="$ROS_DISTRO"
            eval "$(command rosenv deactivate)"
            echo "✓ Deactivated ROS 2 $distro"
            ;;

        status)
            if [ -n "$ROS_DISTRO" ]; then
                echo "ROS 2 $ROS_DISTRO is active"
                echo ""
                [ -n "$ROS_VERSION" ] && echo "  ROS_VERSION:       $ROS_VERSION"
                echo "  ROS_DISTRO:        $ROS_DISTRO"
                [ -n "$AMENT_PREFIX_PATH" ] && echo "  AMENT_PREFIX_PATH: ${AMENT_PREFIX_PATH%%:*}..."

                if command -v ros2 &>/dev/null; then
                    echo ""
                    echo "ROS 2 CLI:"
                    echo "  ✓ $(which ros2)"
                fi
            else
                command rosenv status
            fi
            ;;

        *)
            command rosenv "$@"
            ;;
    esac
}

# Auto-activate default distribution on shell startup (optional)
# rosenv activate humble >/dev/null 2>&1
"#@
}

/// The shell function that wraps the tool's own subcommands; `shell` only
/// names the shell in a comment.
pub fn generate_shell_integration(shell: &str) -> (r: String)
    ensures
        r@ == init_head() + shell@ + init_tail(),
{
    let mut r = String::from_str("# ROS 2 Environment Manager (rosenv)\n# Generated by: rosenv init ");
    r.append(shell);
    r.append(
        r#"

rosenv() {
    case "$1" in
        activate)
            if [ -z "$2" ]; then
                echo "Error: rosenv activate requires a distribution name"
                echo "Available: $(command rosenv list --short 2>/dev/null || echo 'run rosenv setup')"
                return 1
            fi

            local script
            script=$(command rosenv activate "$2" 2>&1)
            if [ $? -eq 0 ]; then
                eval "$script"
                echo "✓ Switched to ROS 2 $2"
            else
                echo "$script" >&2
                return 1
            fi
            ;;

        deactivate)
            if [ -z "$ROS_DISTRO" ]; then
                echo "No ROS distribution active"
                return 1
            fi

            local distro="$ROS_DISTRO"
            eval "$(command rosenv deactivate)"
            echo "✓ Deactivated ROS 2 $distro"
            ;;

        status)
            if [ -n "$ROS_DISTRO" ]; then
                echo "ROS 2 $ROS_DISTRO is active"
                echo ""
                [ -n "$ROS_VERSION" ] && echo "  ROS_VERSION:       $ROS_VERSION"
                echo "  ROS_DISTRO:        $ROS_DISTRO"
                [ -n "$AMENT_PREFIX_PATH" ] && echo "  AMENT_PREFIX_PATH: ${AMENT_PREFIX_PATH%%:*}..."

                if command -v ros2 &>/dev/null; then
                    echo ""
                    echo "ROS 2 CLI:"
                    echo "  ✓ $(which ros2)"
                fi
            else
                command rosenv status
            fi
            ;;

        *)
            command rosenv "$@"
            ;;
    esac
}

# Auto-activate default distribution on shell startup (optional)
# rosenv activate humble >/dev/null 2>&1
"#,
    );
    r
}


/// The names separated by single spaces.
pub open spec fn space_joined(names: Seq<Seq<char>>) -> Seq<char>
    decreases names.len(),
{
    if names.len() == 0 {
        seq![]
    } else if names.len() == 1 {
        names[0]
    } else {
        space_joined(names.drop_last()) + " "@ + names.last()
    }
}

/// One name per line.
pub open spec fn name_lines(names: Seq<Seq<char>>) -> Seq<char>
    decreases names.len(),
{
    if names.len() == 0 {
        seq![]
    } else {
        name_lines(names.drop_last()) + names.last() + "\n"@
    }
}

/// One line of the full listing; the active version is marked.
pub open spec fn marked_line(name: Seq<char>, current: Option<Seq<char>>) -> Seq<char> {
    if current == Some(name) {
        "  * "@ + name + " (active)\n"@
    } else {
        "    "@ + name + "\n"@
    }
}

pub open spec fn marked_lines(names: Seq<Seq<char>>, current: Option<Seq<char>>) -> Seq<char>
    decreases names.len(),
{
    if names.len() == 0 {
        seq![]
    } else {
        marked_lines(names.drop_last(), current) + marked_line(names.last(), current)
    }
}

/// What `list` prints: `short` gives one line of names and wins over
/// `names_only`, which gives a name per line; otherwise a titled list that
/// marks the active version `current`.
pub open spec fn list_text(
    names: Seq<Seq<char>>,
    names_only: bool,
    short: bool,
    current: Option<Seq<char>>,
) -> Seq<char> {
    if names.len() == 0 {
        if !names_only && !short {
            "No ROS distributions found in /opt/ros\n\nRun: rosenv setup\n"@
        } else {
            seq![]
        }
    } else if short {
        space_joined(names) + "\n"@
    } else if names_only {
        name_lines(names)
    } else {
        "Available ROS distributions:\n"@ + marked_lines(names, current)
    }
}

pub fn list_output(names: &Vec<String>, names_only: bool, short: bool, current: Option<&str>) -> (r: String)
    ensures
        r@ == list_text(name_views(names@), names_only, short, opt_str_view(current)),
{
    let ghost ns = name_views(names@);
    if names.len() == 0 {
        if !names_only && !short {
            return String::from_str("No ROS distributions found in /opt/ros\n\nRun: rosenv setup\n");
        }
        return String::new();
    }
    let mut r = String::new();
    let mut i: usize = 0;
    if short {
        while i < names.len()
            invariant
                ns == name_views(names@),
                i <= names@.len(),
                r@ == space_joined(ns.take(i as int)),
            decreases names@.len() - i,
        {
            assert(ns.take(i + 1).drop_last() =~= ns.take(i as int));
            if i > 0 {
                r.append(" ");
            } else {
                assert(r@ =~= seq![]);
            }
            r.append(names[i].as_str());
            proof {
                if i == 0 {
                    assert(r@ =~= ns.take(1)[0]);
                }
            }
            i = i + 1;
        }
        assert(ns.take(i as int) =~= ns);
        r.append("\n");
    } else if names_only {
        while i < names.len()
            invariant
                ns == name_views(names@),
                i <= names@.len(),
                r@ == name_lines(ns.take(i as int)),
            decreases names@.len() - i,
        {
            assert(ns.take(i + 1).drop_last() =~= ns.take(i as int));
            r.append(names[i].as_str());
            r.append("\n");
            i = i + 1;
        }
        assert(ns.take(i as int) =~= ns);
    } else {
        r.append("Available ROS distributions:\n");
        while i < names.len()
            invariant
                ns == name_views(names@),
                i <= names@.len(),
                r@ == "Available ROS distributions:\n"@ + marked_lines(ns.take(i as int), opt_str_view(current)),
            decreases names@.len() - i,
        {
            assert(ns.take(i + 1).drop_last() =~= ns.take(i as int));
            let active = match current {
                Some(c) => str_eq(names[i].as_str(), c),
                None => false,
            };
            if active {
                r.append("  * ");
                r.append(names[i].as_str());
                r.append(" (active)\n");
            } else {
                r.append("    ");
                r.append(names[i].as_str());
                r.append("\n");
            }
            i = i + 1;
        }
        assert(ns.take(i as int) =~= ns);
    }
    r
}


/// A key subdirectory of a canonical entry, as the filesystem shows it.
#[derive(Debug, Clone)]
pub struct KeyDir {
    pub name: String,
    pub exists: bool,
    /// How many entries it holds; `None` where it could not be read.
    pub entries: Option<u64>,
}

/// A present subdirectory is shown with its entry count where it is known;
/// an absent one is not shown.
pub open spec fn key_dir_line(d: KeyDir) -> Seq<char> {
    if !d.exists {
        seq![]
    } else {
        match d.entries {
            Some(n) => "  ✓ "@ + d.name@ + " ("@ + decimal_of(n as nat) + " entries)\n"@,
            None => "  ✓ "@ + d.name@ + "\n"@,
        }
    }
}

pub open spec fn key_dir_lines(ds: Seq<KeyDir>) -> Seq<char>
    decreases ds.len(),
{
    if ds.len() == 0 {
        seq![]
    } else {
        key_dir_lines(ds.drop_last()) + key_dir_line(ds.last())
    }
}

/// A setup script, marked present or missing.
pub open spec fn presence_line(present: bool, name: Seq<char>) -> Seq<char> {
    (if present {
        "  ✓ "@
    } else {
        "  ✗ "@
    }) + name + "\n"@
}

pub open spec fn entry_type_text(state: LinkView) -> Seq<char> {
    match state {
        LinkView::Symlink(t) => "Type:         Symlink\nTarget:       "@ + t + "\n"@,
        _ => "Type:         Directory\n"@,
    }
}

/// What `info` prints about the canonical entry of `distro`.
pub open spec fn info_text(distro: Seq<char>, state: LinkView, files: SetupFiles, dirs: Seq<KeyDir>) -> Seq<
    char,
> {
    "Distribution: "@ + distro + "\n"@ + "Path:         "@ + canonical_path(distro) + "\n"@
        + entry_type_text(state) + "\nSetup files:\n"@ + presence_line(files.bash, "setup.bash"@)
        + presence_line(files.zsh, "setup.zsh"@) + presence_line(files.sh, "setup.sh"@)
        + "\nKey directories:\n"@ + key_dir_lines(dirs)
}

fn append_presence(r: &mut String, present: bool, name: &str)
    ensures
        final(r)@ == old(r)@ + presence_line(present, name@),
{
    if present {
        r.append("  ✓ ");
    } else {
        r.append("  ✗ ");
    }
    r.append(name);
    r.append("\n");
}

/// The report on the canonical entry of `distro`: what stands there, which
/// setup scripts it holds, and its key subdirectories `dirs`.
pub fn info_report(distro: &str, state: &LinkState, files: &SetupFiles, dirs: &Vec<KeyDir>) -> (r: String)
    ensures
        r@ == info_text(distro@, state@, *files, dirs@),
{
    let mut r = String::from_str("Distribution: ");
    r.append(distro);
    r.append("\n");
    r.append("Path:         ");
    let path = distro_path(distro);
    r.append(path.as_str());
    r.append("\n");
    match state {
        LinkState::Symlink { target } => {
            r.append("Type:         Symlink\nTarget:       ");
            r.append(target.as_str());
            r.append("\n");
        },
        _ => {
            r.append("Type:         Directory\n");
        },
    }
    r.append("\nSetup files:\n");
    append_presence(&mut r, files.bash, "setup.bash");
    append_presence(&mut r, files.zsh, "setup.zsh");
    append_presence(&mut r, files.sh, "setup.sh");
    r.append("\nKey directories:\n");
    let ghost head = r@;
    let mut i: usize = 0;
    while i < dirs.len()
        invariant
            i <= dirs@.len(),
            r@ == head + key_dir_lines(dirs@.take(i as int)),
        decreases dirs@.len() - i,
    {
        assert(dirs@.take(i + 1).drop_last() =~= dirs@.take(i as int));
        let d = &dirs[i];
        if d.exists {
            r.append("  ✓ ");
            r.append(d.name.as_str());
            match d.entries {
                Some(n) => {
                    r.append(" (");
                    let count = decimal(n);
                    r.append(count.as_str());
                    r.append(" entries)\n");
                },
                None => {
                    r.append("\n");
                },
            }
        }
        i = i + 1;
    }
    assert(dirs@.take(i as int) =~= dirs@);
    r
}


pub open spec fn dash_lines(names: Seq<Seq<char>>) -> Seq<char>
    decreases names.len(),
{
    if names.len() == 0 {
        seq![]
    } else {
        dash_lines(names.drop_last()) + "  - "@ + names.last() + "\n"@
    }
}

/// What `status` prints. `current` is the active version, `ros_version` and
/// `ament` the values of the matching variables where set, `setup_zsh_exists`
/// whether the active version's zsh setup script exists, and `names` the
/// versions in the canonical directory (shown when none is active).
pub open spec fn status_text(
    current: Option<Seq<char>>,
    ros_version: Option<Seq<char>>,
    ament: Option<Seq<char>>,
    setup_zsh_exists: bool,
    names: Seq<Seq<char>>,
) -> Seq<char> {
    match current {
        Some(d) => "ROS 2 "@ + d + " is active\n\n"@ + "Environment:\n"@ + (match ros_version {
            Some(v) => "  ROS_VERSION:       "@ + v + "\n"@,
            None => seq![],
        }) + "  ROS_DISTRO:        "@ + d + "\n"@ + (match ament {
            Some(a) => "  AMENT_PREFIX_PATH: "@ + a + "\n"@,
            None => seq![],
        }) + (if setup_zsh_exists {
            "\nSetup file:\n  ✓ "@ + setup_path_of(d, "zsh"@) + "\n"@
        } else {
            seq![]
        }),
        None => "No ROS 2 distribution active\n\n"@ + (if names.len() > 0 {
            "Available distributions:\n"@ + dash_lines(names) + "\nActivate: ros-distro <distro>\n"@
        } else {
            "Run: rosenv setup\n"@
        }),
    }
}

pub fn status_report(
    current: Option<&str>,
    ros_version: Option<&str>,
    ament: Option<&str>,
    setup_zsh_exists: bool,
    names: &Vec<String>,
) -> (r: String)
    ensures
        r@ == status_text(
            opt_str_view(current),
            opt_str_view(ros_version),
            opt_str_view(ament),
            setup_zsh_exists,
            name_views(names@),
        ),
{
    match current {
        Some(d) => {
            let mut r = String::from_str("ROS 2 ");
            r.append(d);
            r.append(" is active\n\n");
            r.append("Environment:\n");
            if let Some(v) = ros_version {
                r.append("  ROS_VERSION:       ");
                r.append(v);
                r.append("\n");
            }
            r.append("  ROS_DISTRO:        ");
            r.append(d);
            r.append("\n");
            if let Some(a) = ament {
                r.append("  AMENT_PREFIX_PATH: ");
                r.append(a);
                r.append("\n");
            }
            if setup_zsh_exists {
                r.append("\nSetup file:\n  ✓ ");
                let p = activation_setup_path(d, "zsh");
                proof {
                    reveal_strlit("zsh");
                }
                r.append(p.as_str());
                r.append("\n");
            }
            r
        },
        None => {
            let ghost ns = name_views(names@);
            let mut r = String::from_str("No ROS 2 distribution active\n\n");
            if names.len() == 0 {
                r.append("Run: rosenv setup\n");
                return r;
            }
            r.append("Available distributions:\n");
            let ghost head = r@;
            let mut i: usize = 0;
            while i < names.len()
                invariant
                    ns == name_views(names@),
                    i <= names@.len(),
                    r@ == head + dash_lines(ns.take(i as int)),
                decreases names@.len() - i,
            {
                assert(ns.take(i + 1).drop_last() =~= ns.take(i as int));
                r.append("  - ");
                r.append(names[i].as_str());
                r.append("\n");
                i = i + 1;
            }
            assert(ns.take(i as int) =~= ns);
            r.append("\nActivate: ros-distro <distro>\n");
            r
        },
    }
}

} // verus!
