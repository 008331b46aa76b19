//! The decisions behind launching the remote editor process: which binary
//! to run and with which arguments.  The process spawning itself, path
//! probes and `PATH` lookups live outside the library and feed their results
//! in as plain values.

use vstd::prelude::*;

verus! {

/// The argument list the remote process is started with: `--embed`, then
/// the caller's arguments, then the files to open.
pub fn embed_args(nvim_args: &Vec<String>, files: &Vec<String>) -> (r: Vec<String>)
    ensures
        r@.len() == 1 + nvim_args@.len() + files@.len(),
        r@[0]@ == "--embed"@,
        forall|i: int| 0 <= i < nvim_args@.len() ==> r@[1 + i] == nvim_args@[i],
        forall|j: int| 0 <= j < files@.len() ==> r@[1 + nvim_args@.len() + j] == files@[j],
{
    let mut r: Vec<String> = Vec::new();
    r.push(String::from_str("--embed"));
    let mut i: usize = 0;
    while i < nvim_args.len()
        invariant
            i <= nvim_args@.len(),
            r@.len() == 1 + i,
            r@[0]@ == "--embed"@,
            forall|k: int| 0 <= k < i ==> r@[1 + k] == nvim_args@[k],
        decreases nvim_args@.len() - i,
    {
        r.push(nvim_args[i].clone());
        i = i + 1;
    }
    let mut j: usize = 0;
    while j < files.len()
        invariant
            j <= files@.len(),
            r@.len() == 1 + nvim_args@.len() + j,
            r@[0]@ == "--embed"@,
            forall|k: int| 0 <= k < nvim_args@.len() ==> r@[1 + k] == nvim_args@[k],
            forall|k: int| 0 <= k < j ==> r@[1 + nvim_args@.len() + k] == files@[k],
        decreases files@.len() - j,
    {
        r.push(files[j].clone());
        j = j + 1;
    }
    r
}

/// The binary the remote process is launched from: a configured path when
/// one is set and it exists on this machine, else whatever a `PATH` search
/// found; `None` when neither yields a binary (the caller reports and
/// exits).  `path_exists` and `path_found` are the outside probes' results.
pub fn choose_nvim_binary(
    configured: Option<String>,
    path_exists: bool,
    path_found: Option<String>,
) -> (r: Option<String>)
    ensures
        r == (match configured {
            Some(p) => if path_exists {
                Some(p)
            } else {
                path_found
            },
            None => path_found,
        }),
{
    match configured {
        Some(p) => if path_exists {
            Some(p)
        } else {
            path_found
        },
        None => path_found,
    }
}

/// Whether the remote process's version probe reports a supported version:
/// the probe must have answered exactly `1`.
pub fn nvim_version_supported(output: &Option<String>) -> (r: bool)
    ensures
        r == (match output {
            Some(s) => s@ == "1"@,
            None => false,
        }),
{
    match output {
        Some(s) => {
            let one = String::from_str("1");
            *s == one
        },
        None => false,
    }
}

} // verus!
