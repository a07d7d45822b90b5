use vstd::prelude::*;

use crate::text::{contains, has_substring, opt_str_view};

verus! {

#[derive(Debug, Clone, Copy, PartialEq, Eq, Structural)]
pub enum Severity {
    Pass,
    Warning,
    Error,
}

/// One line of a diagnosis.
#[derive(Debug, Clone)]
pub struct Finding {
    pub severity: Severity,
    pub text: String,
}

impl View for Finding {
    type V = (Severity, Seq<char>);

    open spec fn view(&self) -> (Severity, Seq<char>) {
        (self.severity, self.text@)
    }
}

pub open spec fn finding_views(fs: Seq<Finding>) -> Seq<(Severity, Seq<char>)> {
    fs.map_values(|f: Finding| f@)
}

/// What the filesystem shows of one canonical entry and what it points at.
#[derive(Debug, Clone)]
pub struct EntryProbe {
    pub is_symlink: bool,
    /// The link's target; `None` where it could not be read.
    pub target: Option<String>,
    pub target_exists: bool,
    pub has_setup_zsh: bool,
    pub has_setup_bash: bool,
    pub has_bin: bool,
    pub has_lib: bool,
}

pub open spec fn entry_report(name: Seq<char>, p: EntryProbe) -> Seq<(Severity, Seq<char>)> {
    if !p.is_symlink {
        seq![(Severity::Warning, "Not a symlink (regular directory)"@)]
    } else {
        match p.target {
            None => seq![(Severity::Pass, "Symlink valid"@), (Severity::Error, "Could not read symlink"@)],
            Some(t) => seq![
                (Severity::Pass, "Symlink valid"@),
                if p.target_exists {
                    (Severity::Pass, "Target exists: "@ + t@)
                } else {
                    (
                        Severity::Error,
                        "Target does not exist: "@ + t@ + "\n    Fix: rosenv remove "@ + name
                            + " && rosenv setup"@,
                    )
                },
                if p.has_setup_zsh || p.has_setup_bash {
                    (Severity::Pass, "Setup files present"@)
                } else {
                    (Severity::Error, "Setup files missing"@)
                },
                if p.has_bin && p.has_lib {
                    (Severity::Pass, "Binary and library directories exist"@)
                } else {
                    (Severity::Warning, "Some directories missing"@)
                },
            ],
        }
    }
}

fn finding(severity: Severity, text: &str) -> (r: Finding)
    ensures
        r@ == (severity, text@),
{
    Finding { severity, text: String::from_str(text) }
}

/// The diagnosis of the canonical entry `name`.
pub fn entry_findings(name: &str, p: &EntryProbe) -> (r: Vec<Finding>)
    ensures
        finding_views(r@) == entry_report(name@, *p),
{
    let mut r: Vec<Finding> = Vec::new();
    if !p.is_symlink {
        r.push(finding(Severity::Warning, "Not a symlink (regular directory)"));
        assert(finding_views(r@) =~= entry_report(name@, *p));
        return r;
    }
    r.push(finding(Severity::Pass, "Symlink valid"));
    match &p.target {
        None => {
            r.push(finding(Severity::Error, "Could not read symlink"));
        },
        Some(t) => {
            if p.target_exists {
                let mut s = String::from_str("Target exists: ");
                s.append(t.as_str());
                r.push(Finding { severity: Severity::Pass, text: s });
            } else {
                let mut s = String::from_str("Target does not exist: ");
                s.append(t.as_str());
                s.append("\n    Fix: rosenv remove ");
                s.append(name);
                s.append(" && rosenv setup");
                r.push(Finding { severity: Severity::Error, text: s });
            }
            if p.has_setup_zsh || p.has_setup_bash {
                r.push(finding(Severity::Pass, "Setup files present"));
            } else {
                r.push(finding(Severity::Error, "Setup files missing"));
            }
            if p.has_bin && p.has_lib {
                r.push(finding(Severity::Pass, "Binary and library directories exist"));
            } else {
                r.push(finding(Severity::Warning, "Some directories missing"));
            }
        },
    }
    assert(finding_views(r@) =~= entry_report(name@, *p));
    r
}

pub open spec fn root_report(root_exists: bool, writable: bool) -> Seq<(Severity, Seq<char>)> {
    if !root_exists {
        seq![
            (
                Severity::Error,
                "/opt/ros directory does not exist\n  Fix: sudo mkdir -p /opt/ros && sudo chown $USER /opt/ros\n"@,
            ),
        ]
    } else if writable {
        seq![(Severity::Pass, "/opt/ros directory exists"@), (Severity::Pass, "/opt/ros is writable"@)]
    } else {
        seq![
            (Severity::Pass, "/opt/ros directory exists"@),
            (Severity::Error, "/opt/ros is not writable\n  Fix: sudo chown $USER /opt/ros\n"@),
        ]
    }
}

/// The diagnosis of the canonical directory itself.
pub fn root_findings(root_exists: bool, writable: bool) -> (r: Vec<Finding>)
    ensures
        finding_views(r@) == root_report(root_exists, writable),
{
    let mut r: Vec<Finding> = Vec::new();
    if !root_exists {
        r.push(
            finding(
                Severity::Error,
                "/opt/ros directory does not exist\n  Fix: sudo mkdir -p /opt/ros && sudo chown $USER /opt/ros\n",
            ),
        );
    } else {
        r.push(finding(Severity::Pass, "/opt/ros directory exists"));
        if writable {
            r.push(finding(Severity::Pass, "/opt/ros is writable"));
        } else {
            r.push(finding(Severity::Error, "/opt/ros is not writable\n  Fix: sudo chown $USER /opt/ros\n"));
        }
    }
    assert(finding_views(r@) =~= root_report(root_exists, writable));
    r
}

pub open spec fn digit_char(d: nat) -> char
    recommends
        d < 10,
{
    seq!['0', '1', '2', '3', '4', '5', '6', '7', '8', '9'][d as int]
}

/// The decimal digits of `n`.
pub open spec fn decimal_of(n: nat) -> Seq<char>
    decreases n,
{
    if n < 10 {
        seq![digit_char(n)]
    } else {
        decimal_of(n / 10) + seq![digit_char(n % 10)]
    }
}

fn digit_str(d: u64) -> (r: &'static str)
    requires
        d < 10,
    ensures
        r@ == seq![digit_char(d as nat)],
{
    proof {
        reveal_strlit("0");
        reveal_strlit("1");
        reveal_strlit("2");
        reveal_strlit("3");
        reveal_strlit("4");
        reveal_strlit("5");
        reveal_strlit("6");
        reveal_strlit("7");
        reveal_strlit("8");
        reveal_strlit("9");
    }
    match d {
        0 => "0",
        1 => "1",
        2 => "2",
        3 => "3",
        4 => "4",
        5 => "5",
        6 => "6",
        7 => "7",
        8 => "8",
        _ => "9",
    }
}

/// `n` written in decimal.
pub fn decimal(n: u64) -> (r: String)
    ensures
        r@ == decimal_of(n as nat),
    decreases n,
{
    if n < 10 {
        String::from_str(digit_str(n))
    } else {
        let mut r = decimal(n / 10);
        r.append(digit_str(n % 10));
        r
    }
}

pub open spec fn listing_report(count: nat) -> (Severity, Seq<char>) {
    if count == 0 {
        (Severity::Warning, "No distributions found in /opt/ros\n  Run: rosenv setup\n"@)
    } else {
        (Severity::Pass, "Found "@ + decimal_of(count) + " distributions in /opt/ros\n"@)
    }
}

/// The diagnosis of the listing of the canonical directory.
pub fn listing_finding(count: u64) -> (r: Finding)
    ensures
        r@ == listing_report(count as nat),
{
    if count == 0 {
        finding(Severity::Warning, "No distributions found in /opt/ros\n  Run: rosenv setup\n")
    } else {
        let mut s = String::from_str("Found ");
        let n = decimal(count);
        s.append(n.as_str());
        s.append(" distributions in /opt/ros\n");
        Finding { severity: Severity::Pass, text: s }
    }
}

pub open spec fn shell_report(rc: Option<Seq<char>>) -> Option<(Severity, Seq<char>)> {
    match rc {
        None => None,
        Some(c) => if has_substring(c, "ros-distro()"@) || has_substring(c, "rosenv"@) {
            Some((Severity::Pass, "Shell integration detected in ~/.zshrc"@))
        } else {
            Some(
                (
                    Severity::Warning,
                    "Shell integration not found in ~/.zshrc\n  Add: rosenv init zsh >> ~/.zshrc\n"@,
                ),
            )
        },
    }
}

/// The diagnosis of the shell's startup file, given its contents where it
/// exists and can be read.
pub fn shell_finding(rc: Option<&str>) -> (r: Option<Finding>)
    ensures
        match rc {
            None => r is None,
            Some(c) => r matches Some(f) && shell_report(Some(c@)) == Some(f@),
        },
{
    match rc {
        None => None,
        Some(c) => {
            if contains(c, "ros-distro()") || contains(c, "rosenv") {
                Some(finding(Severity::Pass, "Shell integration detected in ~/.zshrc"))
            } else {
                Some(
                    finding(
                        Severity::Warning,
                        "Shell integration not found in ~/.zshrc\n  Add: rosenv init zsh >> ~/.zshrc\n",
                    ),
                )
            }
        },
    }
}

/// How many findings have the severity `s`.
pub open spec fn count_of(fs: Seq<(Severity, Seq<char>)>, s: Severity) -> nat
    decreases fs.len(),
{
    if fs.len() == 0 {
        0
    } else {
        count_of(fs.drop_last(), s) + if fs.last().0 == s {
            1nat
        } else {
            0nat
        }
    }
}

proof fn lemma_count_bounded(fs: Seq<(Severity, Seq<char>)>, s: Severity)
    ensures
        count_of(fs, s) <= fs.len(),
    decreases fs.len(),
{
    if fs.len() > 0 {
        lemma_count_bounded(fs.drop_last(), s);
    }
}

pub fn count_severity(findings: &Vec<Finding>, s: Severity) -> (r: usize)
    ensures
        r == count_of(finding_views(findings@), s),
{
    let ghost fs = finding_views(findings@);
    let mut n: usize = 0;
    let mut i: usize = 0;
    while i < findings.len()
        invariant
            fs == finding_views(findings@),
            i <= findings@.len(),
            n == count_of(fs.take(i as int), s),
        decreases findings@.len() - i,
    {
        assert(fs.take(i + 1).drop_last() =~= fs.take(i as int));
        proof {
            lemma_count_bounded(fs.take(i as int), s);
        }
        if findings[i].severity == s {
            n = n + 1;
        }
        i = i + 1;
    }
    assert(fs.take(i as int) =~= fs);
    n
}

pub open spec fn summary_text(errors: nat, warnings: nat) -> Seq<char> {
    if errors == 0 && warnings == 0 {
        "All checks passed!\n"@
    } else {
        (if errors > 0 {
            decimal_of(errors) + " error(s) found\n"@
        } else {
            seq![]
        }) + (if warnings > 0 {
            decimal_of(warnings) + " warning(s) found\n"@
        } else {
            seq![]
        })
    }
}

/// The closing summary of a diagnosis.
pub fn summary(errors: u64, warnings: u64) -> (r: String)
    ensures
        r@ == summary_text(errors as nat, warnings as nat),
{
    if errors == 0 && warnings == 0 {
        return String::from_str("All checks passed!\n");
    }
    let mut r = String::new();
    if errors > 0 {
        let e = decimal(errors);
        r.append(e.as_str());
        r.append(" error(s) found\n");
    }
    if warnings > 0 {
        let w = decimal(warnings);
        r.append(w.as_str());
        r.append(" warning(s) found\n");
    }
    r
}


/// A canonical entry to diagnose, with what the filesystem shows of it.
#[derive(Debug, Clone)]
pub struct DoctorEntry {
    pub name: String,
    pub probe: EntryProbe,
}

pub open spec fn mark_of(s: Severity) -> Seq<char> {
    match s {
        Severity::Pass => "✓"@,
        Severity::Warning => "⚠"@,
        Severity::Error => "✗"@,
    }
}

/// Findings printed one per line, marked by severity, after `indent`.
pub open spec fn finding_lines(indent: Seq<char>, fs: Seq<(Severity, Seq<char>)>) -> Seq<char>
    decreases fs.len(),
{
    if fs.len() == 0 {
        seq![]
    } else {
        finding_lines(indent, fs.drop_last()) + indent + mark_of(fs.last().0) + " "@ + fs.last().1
            + "\n"@
    }
}

pub open spec fn entries_findings(es: Seq<DoctorEntry>) -> Seq<(Severity, Seq<char>)>
    decreases es.len(),
{
    if es.len() == 0 {
        seq![]
    } else {
        entries_findings(es.drop_last()) + entry_report(es.last().name@, es.last().probe)
    }
}

pub open spec fn entries_text(es: Seq<DoctorEntry>) -> Seq<char>
    decreases es.len(),
{
    if es.len() == 0 {
        seq![]
    } else {
        entries_text(es.drop_last()) + "Distribution: "@ + es.last().name@ + "\n"@ + finding_lines(
            "  "@,
            entry_report(es.last().name@, es.last().probe),
        ) + "\n"@
    }
}

pub open spec fn shell_findings(rc: Option<Seq<char>>) -> Seq<(Severity, Seq<char>)> {
    match shell_report(rc) {
        Some(f) => seq![f],
        None => seq![],
    }
}

/// Every finding of a diagnosis, in order.
pub open spec fn diagnosis(
    root_exists: bool,
    writable: bool,
    es: Seq<DoctorEntry>,
    rc: Option<Seq<char>>,
) -> Seq<(Severity, Seq<char>)> {
    root_report(root_exists, writable) + seq![listing_report(es.len())] + entries_findings(es)
        + shell_findings(rc)
}

/// What `doctor` prints: the findings on the canonical directory, on its
/// listing, on each entry and on the shell's startup file, then a summary
/// that counts the errors and warnings among them.
pub open spec fn doctor_text(
    root_exists: bool,
    writable: bool,
    es: Seq<DoctorEntry>,
    rc: Option<Seq<char>>,
) -> Seq<char> {
    let all = diagnosis(root_exists, writable, es, rc);
    "Checking ROS 2 environment setup...\n\n"@ + finding_lines(seq![], root_report(root_exists, writable))
        + (if es.len() == 0 {
        "\n"@
    } else {
        seq![]
    }) + finding_lines(seq![], seq![listing_report(es.len())]) + entries_text(es) + finding_lines(
        seq![],
        shell_findings(rc),
    ) + "\n"@ + summary_text(count_of(all, Severity::Error), count_of(all, Severity::Warning))
}

fn mark(s: Severity) -> (r: &'static str)
    ensures
        r@ == mark_of(s),
{
    match s {
        Severity::Pass => "✓",
        Severity::Warning => "⚠",
        Severity::Error => "✗",
    }
}

/// Prints `fs` into `text` and keeps them in `all`.
fn record(text: &mut String, all: &mut Vec<Finding>, indent: &str, fs: Vec<Finding>)
    ensures
        final(text)@ == old(text)@ + finding_lines(indent@, finding_views(fs@)),
        finding_views(final(all)@) == finding_views(old(all)@) + finding_views(fs@),
{
    let ghost t0 = text@;
    let ghost a0 = finding_views(all@);
    let ghost vs = finding_views(fs@);
    let mut i: usize = 0;
    while i < fs.len()
        invariant
            vs == finding_views(fs@),
            i <= fs@.len(),
            text@ == t0 + finding_lines(indent@, vs.take(i as int)),
            finding_views(all@) == a0 + vs.take(i as int),
        decreases fs@.len() - i,
    {
        assert(vs.take(i + 1).drop_last() =~= vs.take(i as int));
        let f = &fs[i];
        text.append(indent);
        text.append(mark(f.severity));
        text.append(" ");
        text.append(f.text.as_str());
        text.append("\n");
        let ghost before = all@;
        all.push(Finding { severity: f.severity, text: f.text.clone() });
        assert(finding_views(all@) =~= finding_views(before) + seq![vs[i as int]]);
        assert(vs.take(i + 1) =~= vs.take(i as int) + seq![vs[i as int]]);
        i = i + 1;
    }
    assert(vs.take(i as int) =~= vs);
}

/// The diagnosis of the whole setup. `root_exists` and `writable` describe
/// the canonical directory, `entries` its listed entries, and `rc` the
/// shell's startup file where it exists and can be read.
pub fn doctor_report(root_exists: bool, writable: bool, entries: &Vec<DoctorEntry>, rc: Option<&str>) -> (r:
    String)
    ensures
        r@ == doctor_text(root_exists, writable, entries@, opt_str_view(rc)),
{
    let ghost es = entries@;
    let mut text = String::from_str("Checking ROS 2 environment setup...\n\n");
    let mut all: Vec<Finding> = Vec::new();
    record(&mut text, &mut all, "", root_findings(root_exists, writable));
    if entries.len() == 0 {
        text.append("\n");
    }
    let mut listing: Vec<Finding> = Vec::new();
    listing.push(listing_finding(entries.len() as u64));
    assert(finding_views(listing@) =~= seq![listing_report(es.len())]);
    record(&mut text, &mut all, "", listing);
    let ghost t1 = text@;
    let ghost a1 = finding_views(all@);
    let mut i: usize = 0;
    while i < entries.len()
        invariant
            es == entries@,
            i <= es.len(),
            text@ == t1 + entries_text(es.take(i as int)),
            finding_views(all@) == a1 + entries_findings(es.take(i as int)),
        decreases es.len() - i,
    {
        assert(es.take(i + 1).drop_last() =~= es.take(i as int));
        assert(es.take(i + 1).last() == es[i as int]);
        text.append("Distribution: ");
        text.append(entries[i].name.as_str());
        text.append("\n");
        let fs = entry_findings(entries[i].name.as_str(), &entries[i].probe);
        record(&mut text, &mut all, "  ", fs);
        text.append("\n");
        i = i + 1;
    }
    assert(es.take(i as int) =~= es);
    let mut shell: Vec<Finding> = Vec::new();
    if let Some(f) = shell_finding(rc) {
        shell.push(f);
    }
    assert(finding_views(shell@) =~= shell_findings(opt_str_view(rc)));
    record(&mut text, &mut all, "", shell);
    let ghost all_spec = diagnosis(root_exists, writable, es, opt_str_view(rc));
    assert(finding_views(all@) =~= all_spec);
    let errors = count_severity(&all, Severity::Error);
    let warnings = count_severity(&all, Severity::Warning);
    text.append("\n");
    let tail = summary(errors as u64, warnings as u64);
    text.append(tail.as_str());
    proof {
        reveal_strlit("");
        reveal_strlit("  ");
        assert(""@ =~= Seq::<char>::empty());
    }
    text
}

} // verus!
