//! The artifact locator's decision core: the candidate paths for a compiled
//! shared library, and the choice of the most recently accessed readable one.

use vstd::prelude::*;
use crate::text::views_of;

verus! {

/// One candidate artifact path, with its last-access time where the file
/// could be read, and `None` where it could not.
#[derive(Debug)]
pub struct ArtifactCandidate {
    pub path: String,
    pub access_time: Option<u64>,
}

/// No candidate was readable; holds every path that was tried.
#[derive(Debug)]
pub struct ArtifactError {
    pub candidates: Vec<String>,
}

/// The index of the selected candidate among the first `n`: the readable one
/// with the greatest access time, a later index winning ties; `None` when no
/// readable candidate stands among them.
pub open spec fn best_before(s: Seq<ArtifactCandidate>, n: int) -> Option<int>
    decreases n,
{
    if n <= 0 || n > s.len() {
        None
    } else {
        let prev = best_before(s, n - 1);
        match s[n - 1].access_time {
            None => prev,
            Some(t) => match prev {
                None => Some(n - 1),
                Some(j) => if t >= s[j].access_time->Some_0 {
                    Some(n - 1)
                } else {
                    Some(j)
                },
            },
        }
    }
}

/// Selects the most recently accessed readable candidate, a later candidate
/// winning ties; with no readable candidate, fails listing every path tried,
/// in order.
pub fn select_artifact(candidates: &Vec<ArtifactCandidate>) -> (r: Result<String, ArtifactError>)
    ensures
        ({
            let best = best_before(candidates@, candidates@.len() as int);
            match r {
                Ok(p) => best is Some && p@ == candidates@[best->Some_0].path@,
                Err(e) => best is None && e.candidates@.len() == candidates@.len() && (forall|k: int|
                    0 <= k < candidates@.len() ==> (#[trigger] e.candidates@[k])@
                        == candidates@[k].path@),
            }
        }),
{
    let n = candidates.len();
    let mut best: Option<usize> = None;
    let mut i: usize = 0;
    while i < n
        invariant
            n == candidates@.len(),
            0 <= i <= n,
            best is None ==> best_before(candidates@, i as int) is None,
            best is Some ==> best->Some_0 < n && best_before(candidates@, i as int) == Some(
                best->Some_0 as int,
            ) && candidates@[best->Some_0 as int].access_time is Some,
        decreases n - i,
    {
        match candidates[i].access_time {
            None => {},
            Some(t) => {
                match best {
                    None => {
                        best = Some(i);
                    },
                    Some(b) => {
                        let bt = candidates[b].access_time.unwrap();
                        if t >= bt {
                            best = Some(i);
                        }
                    },
                }
            },
        }
        i += 1;
    }
    match best {
        None => {
            let mut names: Vec<String> = Vec::new();
            let mut j: usize = 0;
            while j < n
                invariant
                    n == candidates@.len(),
                    0 <= j <= n,
                    names@.len() == j,
                    forall|k: int|
                        0 <= k < j ==> (#[trigger] names@[k])@ == candidates@[k].path@,
                decreases n - j,
            {
                names.push(candidates[j].path.clone());
                j += 1;
            }
            Err(ArtifactError { candidates: names })
        },
        Some(b) => Ok(candidates[b].path.clone()),
    }
}

/// The attempted paths, each preceded by one space, as diagnostic text.
pub open spec fn spaced_after(parts: Seq<Seq<char>>) -> Seq<char>
    decreases parts.len(),
{
    if parts.len() == 0 {
        Seq::empty()
    } else {
        spaced_after(parts.drop_last()) + seq![' '] + parts.last()
    }
}

impl ArtifactError {
    /// A diagnostic message enumerating every candidate path that was tried.
    pub fn message(&self) -> (m: String)
        ensures
            m@ == "Could not find a readable shared-library artifact; tried candidate paths:"@
                + spaced_after(views_of(self.candidates@)),
    {
        let mut m =
            "Could not find a readable shared-library artifact; tried candidate paths:".to_owned();
        let n = self.candidates.len();
        let mut j: usize = 0;
        proof {
            assert(views_of(self.candidates@).subrange(0, 0) =~= Seq::<Seq<char>>::empty());
        }
        while j < n
            invariant
                n == self.candidates@.len(),
                0 <= j <= n,
                m@ == "Could not find a readable shared-library artifact; tried candidate paths:"@
                    + spaced_after(views_of(self.candidates@).subrange(0, j as int)),
            decreases n - j,
        {
            proof {
                reveal_strlit(" ");
            }
            m.append(" ");
            m.append(self.candidates[j].as_str());
            proof {
                let parts = views_of(self.candidates@);
                assert(parts.subrange(0, j + 1).drop_last() =~= parts.subrange(0, j as int));
                assert(parts.subrange(0, j + 1).last() == self.candidates@[j as int]@);
                assert(" "@ =~= seq![' ']);
            }
            j += 1;
        }
        proof {
            assert(views_of(self.candidates@).subrange(0, n as int) =~= views_of(
                self.candidates@,
            ));
        }
        m
    }
}

/// The directory name of the active optimization profile.
pub fn profile_dir_name(debug: bool) -> (r: String)
    ensures
        debug ==> r@ == "debug"@,
        !debug ==> r@ == "release"@,
{
    if debug {
        "debug".to_owned()
    } else {
        "release".to_owned()
    }
}

/// The platform's shared-library file extension.
pub fn shared_lib_extension(macos: bool) -> (r: String)
    ensures
        macos ==> r@ == "dylib"@,
        !macos ==> r@ == "so"@,
{
    if macos {
        "dylib".to_owned()
    } else {
        "so".to_owned()
    }
}

/// The build-output directory for a profile under a project directory.
pub fn target_profile_dir(project_dir: &str, profile: &str) -> (r: String)
    ensures
        r@ == project_dir@ + "/target/"@ + profile@,
{
    let mut r = project_dir.to_owned();
    r.append("/target/");
    r.append(profile);
    r
}

/// The glob pattern over the dependency-artifacts directory matching any
/// build of the library.
pub fn dep_glob_pattern(target_dir: &str, libname: &str, extension: &str) -> (r: String)
    ensures
        r@ == target_dir@ + "/deps/lib"@ + libname@ + "-*."@ + extension@,
{
    let mut r = target_dir.to_owned();
    r.append("/deps/lib");
    r.append(libname);
    r.append("-*.");
    r.append(extension);
    r
}

/// The single conventional path of the library built as a workspace target.
pub fn workspace_lib_path(target_dir: &str, libname: &str, extension: &str) -> (r: String)
    ensures
        r@ == target_dir@ + "/lib"@ + libname@ + "."@ + extension@,
{
    let mut r = target_dir.to_owned();
    r.append("/lib");
    r.append(libname);
    r.append(".");
    r.append(extension);
    r
}

} // verus!
