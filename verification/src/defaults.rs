//! The default blocklist: best-effort syntactic detection of plainly
//! dangerous shell commands. It is not a security boundary — the workspace
//! guard on writes is the primary defense — and it must not reject innocent
//! commands that merely mention the words (reading under /etc is allowed).

use vstd::prelude::*;

verus! {

/// The default blocked patterns, in order: privilege escalation, recursive
/// deletion at the filesystem root, redirection into system directories,
/// filesystem formatting and raw device writes, fork bombs, shutdown and
/// reboot, and permission changes at the root.
pub open spec fn default_blocklist_patterns() -> Seq<Seq<char>> {
    seq![
        "(?i)\\bsudo\\b"@,
        "(?i)\\bsu\\b\\s"@,
        "(?i)\\bdoas\\b"@,
        "rm\\s+(-[^\\s]*)?(\\s+-[^\\s]*)?\\s+/($|\\s)"@,
        "rm\\s+(-[^\\s]*)?(\\s+-[^\\s]*)?\\s+/\\*"@,
        ">\\s*/etc/"@,
        ">\\s*/usr/"@,
        ">\\s*/boot/"@,
        ">\\s*/sys/"@,
        ">\\s*/proc/"@,
        "(?i)\\bmkfs\\b"@,
        "(?i)\\bdd\\b\\s.*of=/dev/"@,
        ":\\(\\)\\s*\\{.*\\}"@,
        "(?i)\\bshutdown\\b"@,
        "(?i)\\breboot\\b"@,
        "(?i)\\bhalt\\b"@,
        "(?i)\\bpoweroff\\b"@,
        "chmod\\s.*\\s/($|\\s|[a-z])"@,
        "chown\\s.*\\s/($|\\s|[a-z])"@,
    ]
}

/// The reason reported for each default pattern, in the same order.
pub open spec fn default_blocklist_reasons() -> Seq<Seq<char>> {
    seq![
        "Privilege escalation (sudo) not allowed"@,
        "Privilege escalation (su) not allowed"@,
        "Privilege escalation (doas) not allowed"@,
        "Recursive deletion at root not allowed"@,
        "Recursive deletion at root not allowed"@,
        "Write to /etc not allowed"@,
        "Write to /usr not allowed"@,
        "Write to /boot not allowed"@,
        "Write to /sys not allowed"@,
        "Write to /proc not allowed"@,
        "Filesystem formatting not allowed"@,
        "Direct device writes not allowed"@,
        "Fork bomb pattern detected"@,
        "System shutdown not allowed"@,
        "System reboot not allowed"@,
        "System halt not allowed"@,
        "System poweroff not allowed"@,
        "Permission changes at root level not allowed"@,
        "Ownership changes at root level not allowed"@,
    ]
}

/// The default blocklist as ordered (pattern, reason) pairs.
pub fn default_blocklist() -> (r: Vec<(String, String)>)
    ensures
        r@.len() == 19,
        r@.map_values(|p: (String, String)| p.0@) == default_blocklist_patterns(),
        r@.map_values(|p: (String, String)| p.1@) == default_blocklist_reasons(),
{
    let mut v: Vec<(String, String)> = Vec::new();
    v.push(("(?i)\\bsudo\\b".to_owned(), "Privilege escalation (sudo) not allowed".to_owned()));
    v.push(("(?i)\\bsu\\b\\s".to_owned(), "Privilege escalation (su) not allowed".to_owned()));
    v.push(("(?i)\\bdoas\\b".to_owned(), "Privilege escalation (doas) not allowed".to_owned()));
    v.push(("rm\\s+(-[^\\s]*)?(\\s+-[^\\s]*)?\\s+/($|\\s)".to_owned(), "Recursive deletion at root not allowed".to_owned()));
    v.push(("rm\\s+(-[^\\s]*)?(\\s+-[^\\s]*)?\\s+/\\*".to_owned(), "Recursive deletion at root not allowed".to_owned()));
    v.push((">\\s*/etc/".to_owned(), "Write to /etc not allowed".to_owned()));
    v.push((">\\s*/usr/".to_owned(), "Write to /usr not allowed".to_owned()));
    v.push((">\\s*/boot/".to_owned(), "Write to /boot not allowed".to_owned()));
    v.push((">\\s*/sys/".to_owned(), "Write to /sys not allowed".to_owned()));
    v.push((">\\s*/proc/".to_owned(), "Write to /proc not allowed".to_owned()));
    v.push(("(?i)\\bmkfs\\b".to_owned(), "Filesystem formatting not allowed".to_owned()));
    v.push(("(?i)\\bdd\\b\\s.*of=/dev/".to_owned(), "Direct device writes not allowed".to_owned()));
    v.push((":\\(\\)\\s*\\{.*\\}".to_owned(), "Fork bomb pattern detected".to_owned()));
    v.push(("(?i)\\bshutdown\\b".to_owned(), "System shutdown not allowed".to_owned()));
    v.push(("(?i)\\breboot\\b".to_owned(), "System reboot not allowed".to_owned()));
    v.push(("(?i)\\bhalt\\b".to_owned(), "System halt not allowed".to_owned()));
    v.push(("(?i)\\bpoweroff\\b".to_owned(), "System poweroff not allowed".to_owned()));
    v.push(("chmod\\s.*\\s/($|\\s|[a-z])".to_owned(), "Permission changes at root level not allowed".to_owned()));
    v.push(("chown\\s.*\\s/($|\\s|[a-z])".to_owned(), "Ownership changes at root level not allowed".to_owned()));
    proof {
        assert(v@.map_values(|p: (String, String)| p.0@) =~= default_blocklist_patterns());
        assert(v@.map_values(|p: (String, String)| p.1@) =~= default_blocklist_reasons());
    }
    v
}

} // verus!
