use vstd::prelude::*;

use crate::file::Platform;
use crate::strutil::{lemma_rfind_char_before, rfind_char_before, strings_view};

verus! {

// How the launch target and its resolved arguments become one concrete
// process invocation. Spawning the process is the caller's side; the rules
// here decide which program runs, with which argument list, and whether the
// caller waits for it.

/// Starts the installed application.
pub struct Launcher;

/// One concrete process invocation: the program to start, its arguments in
/// order, and whether the caller waits for it to finish.
#[derive(Debug)]
pub struct LaunchInvocation {
    pub program: String,
    pub args: Vec<String>,
    pub wait_for_exit: bool,
}

/// Whether a path names an application bundle: its last segment has a `.`
/// after its first character, with `app` after the last such `.`.
pub open spec fn has_app_extension(path: Seq<char>) -> bool {
    let seg = path.skip(rfind_char_before(path, '/', path.len() as int) + 1);
    let d = rfind_char_before(seg, '.', seg.len() as int);
    d >= 1 && seg.skip(d + 1) == "app"@
}

/// Whether the last path segment of `path` ends in an `.app` extension.
pub fn path_has_app_extension(path: &str) -> (r: bool)
    ensures
        r == has_app_extension(path@),
{
    let n = path.unicode_len();
    let mut k: usize = n;
    while k > 0 && path.get_char(k - 1) != '/'
        invariant
            n == path@.len(),
            0 <= k <= n,
            forall|j: int| k <= j < n ==> path@[j] != '/',
        decreases k,
    {
        k = k - 1;
    }
    proof {
        lemma_rfind_char_before(path@, '/', n as int);
        let r0 = rfind_char_before(path@, '/', n as int);
        if k > 0 {
            if r0 > k - 1 {
                assert(path@[r0] != '/');
            }
            if r0 < k - 1 {
                assert(path@[k - 1] != '/');
            }
            assert(r0 == k - 1);
        } else {
            if r0 >= 0 {
                assert(path@[r0] != '/');
            }
            assert(r0 == -1);
        }
    }
    let seg = path.substring_char(k, n);
    proof {
        assert(seg@ =~= path@.skip(rfind_char_before(path@, '/', path@.len() as int) + 1));
    }
    let m = seg.unicode_len();
    let mut d: usize = m;
    while d > 0 && seg.get_char(d - 1) != '.'
        invariant
            m == seg@.len(),
            0 <= d <= m,
            forall|j: int| d <= j < m ==> seg@[j] != '.',
        decreases d,
    {
        d = d - 1;
    }
    proof {
        lemma_rfind_char_before(seg@, '.', m as int);
        let r0 = rfind_char_before(seg@, '.', m as int);
        if d > 0 {
            if r0 > d - 1 {
                assert(seg@[r0] != '.');
            }
            if r0 < d - 1 {
                assert(seg@[d - 1] != '.');
            }
            assert(r0 == d - 1);
        } else {
            if r0 >= 0 {
                assert(seg@[r0] != '.');
            }
            assert(r0 == -1);
        }
    }
    if d < 2 {
        return false;
    }
    let ext = seg.substring_char(d, m);
    proof {
        assert(ext@ =~= seg@.skip(rfind_char_before(seg@, '.', seg@.len() as int) + 1));
    }
    crate::strutil::str_eq(ext, "app")
}

/// Copies a string list.
fn clone_strings(v: &Vec<String>) -> (r: Vec<String>)
    ensures
        strings_view(r@) == strings_view(v@),
{
    let n = v.len();
    let mut out: Vec<String> = Vec::new();
    let mut i: usize = 0;
    while i < n
        invariant
            n == v@.len(),
            0 <= i <= n,
            out@.len() == i,
            forall|k: int| 0 <= k < i ==> #[trigger] out@[k]@ == v@[k]@,
        decreases n - i,
    {
        out.push(v[i].clone());
        i = i + 1;
    }
    proof {
        assert(strings_view(out@) =~= strings_view(v@));
    }
    out
}

impl Launcher {
    pub fn new() -> Launcher {
        Launcher
    }

    /// Decides the concrete invocation for a resolved launch target. An
    /// application bundle on the bundle platform is handed to the system
    /// opener, with the arguments after an `--args` separator when there are
    /// any, and is waited for. Anything else runs directly, waited for on
    /// every platform but the one that spawns without waiting.
    pub fn plan_invocation(
        &self,
        platform: Platform,
        executable: &str,
        absolute_path: &str,
        arguments: &Vec<String>,
    ) -> (r: LaunchInvocation)
        ensures
            (platform is MacOs && has_app_extension(absolute_path@)) ==> {
                &&& r.program@ == "/usr/bin/open"@
                &&& r.wait_for_exit
                &&& arguments@.len() == 0 ==> strings_view(r.args@) == seq![executable@]
                &&& arguments@.len() > 0 ==> strings_view(r.args@) == seq![executable@] + seq![
                    "--args"@,
                ] + strings_view(arguments@)
            },
            !(platform is MacOs && has_app_extension(absolute_path@)) ==> {
                &&& r.program@ == absolute_path@
                &&& strings_view(r.args@) == strings_view(arguments@)
                &&& r.wait_for_exit == (platform != Platform::Windows)
            },
    {
        if platform == Platform::MacOs && path_has_app_extension(absolute_path) {
            let mut args: Vec<String> = Vec::new();
            args.push(executable.to_owned());
            if arguments.len() > 0 {
                args.push("--args".to_owned());
                let mut rest = clone_strings(arguments);
                args.append(&mut rest);
                proof {
                    assert(strings_view(args@) =~= seq![executable@] + seq!["--args"@]
                        + strings_view(arguments@));
                }
            } else {
                proof {
                    assert(strings_view(args@) =~= seq![executable@]);
                }
            }
            LaunchInvocation { program: "/usr/bin/open".to_owned(), args, wait_for_exit: true }
        } else {
            LaunchInvocation {
                program: absolute_path.to_owned(),
                args: clone_strings(arguments),
                wait_for_exit: platform != Platform::Windows,
            }
        }
    }
}

} // verus!
