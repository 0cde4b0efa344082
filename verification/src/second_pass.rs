//! The second-pass driver's command assembly: the exact host-compiler
//! argument list for the instrumented re-compilation, and the full command
//! line rendered for diagnostics.

use vstd::prelude::*;
use crate::artifact::spaced_after;
use crate::text::views_of;

verus! {

/// The `name=path` argument that links the second pass against the located
/// artifact.
pub fn link_argument(link_name: &str, link_path: &str) -> (r: String)
    ensures
        r@ == link_name@ + "="@ + link_path@,
{
    let mut r = link_name.to_owned();
    r.append("=");
    r.append(link_path);
    r
}

/// The host-compiler argument list for the second pass: expand-and-pretty-
/// print mode, the edition, colour disabled, the extern link argument, and
/// the entry source path, in this exact order.
pub fn second_pass_args(link_name: &str, link_path: &str, entry_path: &str) -> (r: Vec<String>)
    ensures
        r@.len() == 9,
        r@[0]@ == "-Z"@,
        r@[1]@ == "unpretty=expanded"@,
        r@[2]@ == "-Z"@,
        r@[3]@ == "unstable-options"@,
        r@[4]@ == "--edition=2021"@,
        r@[5]@ == "--color=never"@,
        r@[6]@ == "--extern"@,
        r@[7]@ == link_name@ + "="@ + link_path@,
        r@[8]@ == entry_path@,
{
    let mut r: Vec<String> = Vec::new();
    r.push("-Z".to_owned());
    r.push("unpretty=expanded".to_owned());
    r.push("-Z".to_owned());
    r.push("unstable-options".to_owned());
    r.push("--edition=2021".to_owned());
    r.push("--color=never".to_owned());
    r.push("--extern".to_owned());
    r.push(link_argument(link_name, link_path));
    r.push(entry_path.to_owned());
    r
}

/// The full command line as one string: the compiler's name, then each
/// argument preceded by a single space.
pub fn render_command_line(args: &Vec<String>) -> (r: String)
    ensures
        r@ == "rustc"@ + spaced_after(views_of(args@)),
{
    let mut r = "rustc".to_owned();
    let n = args.len();
    let mut j: usize = 0;
    proof {
        assert(views_of(args@).subrange(0, 0) =~= Seq::<Seq<char>>::empty());
    }
    while j < n
        invariant
            n == args@.len(),
            0 <= j <= n,
            r@ == "rustc"@ + spaced_after(views_of(args@).subrange(0, j as int)),
        decreases n - j,
    {
        proof {
            reveal_strlit(" ");
        }
        r.append(" ");
        r.append(args[j].as_str());
        proof {
            let parts = views_of(args@);
            assert(parts.subrange(0, j + 1).drop_last() =~= parts.subrange(0, j as int));
            assert(parts.subrange(0, j + 1).last() == args@[j as int]@);
            assert(" "@ =~= seq![' ']);
        }
        j += 1;
    }
    proof {
        assert(views_of(args@).subrange(0, n as int) =~= views_of(args@));
    }
    r
}

} // verus!
