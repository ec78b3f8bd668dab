use vstd::prelude::*;
use vstd::string::StringExecFns;

use crate::text::{
    all_white_space, decimal, lemma_parse_padded_decimal, parse_trimmed_u64, parse_u64, trim,
};

verus! {

/// Where the kernel lists a network interface: `/sys/class/net/<iface>`.
pub open spec fn spec_interface_path(iface: Seq<char>) -> Seq<char> {
    "/sys/class/net/"@ + iface
}

/// Where the kernel keeps one counter of an interface:
/// `/sys/class/net/<iface>/statistics/<stat>`.
pub open spec fn spec_net_stat_path(iface: Seq<char>, stat: Seq<char>) -> Seq<char> {
    spec_interface_path(iface) + "/statistics/"@ + stat
}

/// The counter that a statistics file holds: its trimmed text read as a
/// `u64`, and 0 where the file could not be read or does not hold one.
pub open spec fn spec_net_stat_value(contents: Option<Seq<char>>) -> u64 {
    match contents {
        Some(text) => match parse_u64(trim(text)) {
            Some(v) => v,
            None => 0,
        },
        None => 0,
    }
}

/// Why an interface cannot be benchmarked.
pub enum InterfaceError {
    /// The kernel lists no interface of that name.
    NotFound { iface: String, path: String },
}

impl InterfaceError {
    /// The text of the error:
    /// `network interface '<iface>' not found at <path>`.
    pub fn message(&self) -> (m: String)
        ensures
            match self {
                InterfaceError::NotFound { iface, path } => m@ == "network interface '"@ + iface@
                    + "' not found at "@ + path@,
            },
    {
        match self {
            InterfaceError::NotFound { iface, path } => {
                let mut m = String::from_str("network interface '");
                m.append(iface.as_str());
                m.append("' not found at ");
                m.append(path.as_str());
                m
            },
        }
    }
}

/// The directory that lists the interface `iface`.
pub fn interface_path(iface: &str) -> (p: String)
    ensures
        p@ == spec_interface_path(iface@),
{
    let mut p = String::from_str("/sys/class/net/");
    p.append(iface);
    p
}

/// Decides whether `iface` can be benchmarked, given whether its directory
/// (`interface_path(iface)`) exists: it can exactly when the directory does.
pub fn check_interface(iface: &str, dir_exists: bool) -> (r: Result<(), InterfaceError>)
    ensures
        r is Ok <==> dir_exists,
        r matches Err(InterfaceError::NotFound { iface: name, path }) ==> name@ == iface@
            && path@ == spec_interface_path(iface@),
{
    if dir_exists {
        Ok(())
    } else {
        Err(InterfaceError::NotFound { iface: String::from_str(iface), path: interface_path(iface) })
    }
}

/// The file that holds the counter `stat` of the interface `iface`.
pub fn net_stat_path(iface: &str, stat: &str) -> (p: String)
    ensures
        p@ == spec_net_stat_path(iface@, stat@),
{
    let mut p = interface_path(iface);
    p.append("/statistics/");
    p.append(stat);
    p
}

/// The counter that a statistics file holds, given what reading it gave
/// (`None` where it could not be read).
pub fn net_stat_value(contents: Option<&str>) -> (v: u64)
    ensures
        v == spec_net_stat_value(
            match contents {
                Some(s) => Some(s@),
                None => None,
            },
        ),
{
    match contents {
        Some(s) => match parse_trimmed_u64(s) {
            Some(v) => v,
            None => 0,
        },
        None => 0,
    }
}

/// A statistics file as the kernel writes it, the counter in decimal and a
/// newline, reads back as that counter.
pub proof fn lemma_stat_file_reads_back(n: u64)
    ensures
        spec_net_stat_value(Some(decimal(n as nat) + "\n"@)) == n,
{
    reveal_strlit("\n");
    assert(all_white_space("\n"@));
    assert(all_white_space(Seq::<char>::empty()));
    lemma_parse_padded_decimal(n, Seq::empty(), "\n"@);
    assert(Seq::<char>::empty() + decimal(n as nat) + "\n"@ =~= decimal(n as nat) + "\n"@);
}

/// The directory of an interface is `/sys/class/net/` followed by the whole
/// name: 15 characters of prefix, then every character of `iface` in order.
pub proof fn lemma_interface_path_holds_whole_name(iface: Seq<char>)
    ensures
        spec_interface_path(iface).len() == 15 + iface.len() as int,
        spec_interface_path(iface).subrange(0, 15) == seq![
            '/', 's', 'y', 's', '/', 'c', 'l', 'a', 's', 's', '/', 'n', 'e', 't', '/',
        ],
        spec_interface_path(iface).subrange(15, 15 + iface.len() as int) == iface,
{
    reveal_strlit("/sys/class/net/");
    assert(spec_interface_path(iface).subrange(0, 15) =~= seq![
        '/', 's', 'y', 's', '/', 'c', 'l', 'a', 's', 's', '/', 'n', 'e', 't', '/',
    ]);
    assert(spec_interface_path(iface).subrange(15, 15 + iface.len() as int) =~= iface);
}

/// Different interfaces have different directories.
pub proof fn lemma_interface_paths_differ(a: Seq<char>, b: Seq<char>)
    requires
        spec_interface_path(a) == spec_interface_path(b),
    ensures
        a == b,
{
    lemma_interface_path_holds_whole_name(a);
    lemma_interface_path_holds_whole_name(b);
}

/// The file of a counter lies in the interface's directory: the directory,
/// then `/statistics/` (12 characters), then the whole counter name.
pub proof fn lemma_net_stat_path_holds_whole_names(iface: Seq<char>, stat: Seq<char>)
    ensures
        spec_net_stat_path(iface, stat).len() == 15 + iface.len() as int + 12 + stat.len(),
        spec_net_stat_path(iface, stat).subrange(0, 15 + iface.len() as int) == spec_interface_path(
            iface,
        ),
        spec_net_stat_path(iface, stat).subrange(15, 15 + iface.len() as int) == iface,
        spec_net_stat_path(iface, stat).subrange(15 + iface.len() as int, 27 + iface.len() as int) == seq![
            '/', 's', 't', 'a', 't', 'i', 's', 't', 'i', 'c', 's', '/',
        ],
        spec_net_stat_path(iface, stat).subrange(
            27 + iface.len() as int,
            27 + iface.len() as int + stat.len(),
        ) == stat,
{
    reveal_strlit("/statistics/");
    lemma_interface_path_holds_whole_name(iface);
    let p = spec_net_stat_path(iface, stat);
    let d = spec_interface_path(iface);
    assert(p.subrange(0, 15 + iface.len() as int) =~= d);
    assert(p.subrange(15, 15 + iface.len() as int) =~= d.subrange(15, 15 + iface.len() as int));
    assert(p.subrange(15 + iface.len() as int, 27 + iface.len() as int) =~= seq![
        '/', 's', 't', 'a', 't', 'i', 's', 't', 'i', 'c', 's', '/',
    ]);
    assert(p.subrange(27 + iface.len() as int, 27 + iface.len() as int + stat.len() as int) =~= stat);
}

} // verus!
