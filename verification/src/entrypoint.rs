//! The entry-point resolver: from a project's manifest bytes and the name of
//! the binary being built to the source file that is the true compilation
//! root.

use vstd::prelude::*;
use crate::text::str_eq;

verus! {

/// Why entry-point resolution failed.
#[derive(PartialEq, Eq, Structural, Clone, Copy, Debug)]
pub enum ResolutionError {
    /// The manifest bytes could not be parsed.
    ManifestUnparsable,
    /// The manifest declares no binary target.
    NoBinTargets,
    /// No declared binary target carries the sought name.
    NoMatchingTarget,
    /// The matching binary target declares no source path.
    TargetWithoutPath,
}

/// The binary targets a manifest declares, each as its declared name and its
/// declared source path; `None` when the bytes do not parse as a manifest.
pub uninterp spec fn manifest_bins_of(bytes: Seq<u8>) -> Option<
    Seq<(Option<String>, Option<String>)>,
>;

#[verifier::external_type_specification]
#[verifier::external_body]
pub struct ExManifestError(cargo_manifest::Error);

/// Relies on `cargo_manifest::Manifest::from_slice` to parse manifest bytes;
/// reads out each `[[bin]]` target's declared name and declared path, in
/// declaration order.
#[verifier::external_body]
fn parse_manifest_bins(bytes: &[u8]) -> (r: Result<
    Vec<(Option<String>, Option<String>)>,
    cargo_manifest::Error,
>)
    ensures
        match r {
            Ok(v) => manifest_bins_of(bytes@) == Some(v@),
            Err(_) => manifest_bins_of(bytes@) is None,
        },
{
    match cargo_manifest::Manifest::from_slice(bytes) {
        Ok(m) => Ok(m.bin.into_iter().map(|p| (p.name, p.path)).collect()),
        Err(e) => Err(e),
    }
}

/// The position of the first declared target whose name is `name`.
pub open spec fn first_named(
    targets: Seq<(Option<String>, Option<String>)>,
    name: Seq<char>,
    i: int,
) -> Option<int>
    decreases targets.len() - i,
{
    if i < 0 || i >= targets.len() {
        None
    } else if targets[i].0 is Some && targets[i].0->Some_0@ == name {
        Some(i)
    } else {
        first_named(targets, name, i + 1)
    }
}

/// What binary-entry resolution yields from parsed targets: the manifest
/// directory joined with the declared path of the first target named
/// `bin_name`, or the error that step failed with.
pub open spec fn resolved_bin_entry(
    manifest_dir: Seq<char>,
    bins: Option<Seq<(Option<String>, Option<String>)>>,
    bin_name: Seq<char>,
) -> Result<Seq<char>, ResolutionError> {
    match bins {
        None => Err(ResolutionError::ManifestUnparsable),
        Some(ts) => if ts.len() == 0 {
            Err(ResolutionError::NoBinTargets)
        } else {
            match first_named(ts, bin_name, 0) {
                None => Err(ResolutionError::NoMatchingTarget),
                Some(j) => match ts[j].1 {
                    None => Err(ResolutionError::TargetWithoutPath),
                    Some(p) => Ok(manifest_dir + seq!['/'] + p@),
                },
            }
        },
    }
}

/// Resolves the compilation root for a binary build: parses the manifest,
/// finds the binary target declared under `bin_name`, and joins its declared
/// source path onto `manifest_dir`.
pub fn resolve_binary_entry(manifest_dir: &str, bin_name: &str, manifest_bytes: &[u8]) -> (r:
    Result<String, ResolutionError>)
    ensures
        ({
            let spec_r = resolved_bin_entry(
                manifest_dir@,
                manifest_bins_of(manifest_bytes@),
                bin_name@,
            );
            match r {
                Ok(p) => spec_r == Ok::<Seq<char>, ResolutionError>(p@),
                Err(e) => spec_r == Err::<Seq<char>, ResolutionError>(e),
            }
        }),
{
    let targets = match parse_manifest_bins(manifest_bytes) {
        Err(_) => {
            return Err(ResolutionError::ManifestUnparsable);
        },
        Ok(targets) => targets,
    };
    let n = targets.len();
    if n == 0 {
        return Err(ResolutionError::NoBinTargets);
    }
    let mut i: usize = 0;
    while i < n
        invariant
            n == targets@.len(),
            n > 0,
            manifest_bins_of(manifest_bytes@) == Some(targets@),
            0 <= i <= n,
            first_named(targets@, bin_name@, 0) == first_named(targets@, bin_name@, i as int),
        decreases n - i,
    {
        let matched = match &targets[i].0 {
            Some(nm) => str_eq(nm.as_str(), bin_name),
            None => false,
        };
        if matched {
            assert(first_named(targets@, bin_name@, i as int) == Some(i as int));
            match &targets[i].1 {
                None => {
                    return Err(ResolutionError::TargetWithoutPath);
                },
                Some(p) => {
                    proof {
                        reveal_strlit("/");
                        assert("/"@ =~= seq!['/']);
                    }
                    let mut out = manifest_dir.to_owned();
                    out.append("/");
                    out.append(p.as_str());
                    return Ok(out);
                },
            }
        }
        assert(first_named(targets@, bin_name@, i as int) == first_named(
            targets@,
            bin_name@,
            i as int + 1,
        ));
        i += 1;
    }
    assert(first_named(targets@, bin_name@, n as int) is None);
    Err(ResolutionError::NoMatchingTarget)
}

/// The conventional library compilation root under a project directory: no
/// manifest lookup is performed for a library build.
pub fn resolve_library_entry(manifest_dir: &str) -> (r: String)
    ensures
        r@ == manifest_dir@ + "/src/lib.rs"@,
{
    let mut r = manifest_dir.to_owned();
    r.append("/src/lib.rs");
    r
}

} // verus!
