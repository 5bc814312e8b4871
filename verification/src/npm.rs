use vstd::prelude::*;

verus! {

/// Where one published package version can be downloaded.
#[derive(Debug, Clone)]
pub struct NPMPackageVersionDist {
    pub tarball: String,
}

/// One published package version's metadata.
#[derive(Debug, Clone)]
pub struct NPMPackageVersion {
    pub dist: NPMPackageVersionDist,
}

/// A package's registry metadata, decoded into association lists: the
/// distribution tags and the published versions, each keyed by name.
#[derive(Debug, Clone)]
pub struct NPMPackageMetadata {
    pub dist_tags: Vec<(String, String)>,
    pub versions: Vec<(String, NPMPackageVersion)>,
}

/// The first entry under the given key, if the key occurs at all.
pub open spec fn assoc_lookup<V>(entries: Seq<(String, V)>, key: Seq<char>) -> Option<V>
    decreases entries.len(),
{
    if entries.len() == 0 {
        None
    } else if entries.first().0@ == key {
        Some(entries.first().1)
    } else {
        assoc_lookup(entries.drop_first(), key)
    }
}

fn lookup_dist_tag(entries: &Vec<(String, String)>, key: &str) -> (r: Option<String>)
    ensures
        r == assoc_lookup(entries@, key@),
{
    let mut i: usize = 0;
    proof {
        assert(entries@.skip(0) =~= entries@);
    }
    while i < entries.len()
        invariant
            i <= entries@.len(),
            assoc_lookup(entries@, key@) == assoc_lookup(entries@.skip(i as int), key@),
        decreases entries@.len() - i,
    {
        proof {
            assert(entries@.skip(i as int).first() == entries@[i as int]);
        }
        if crate::git::str_eq(entries[i].0.as_str(), key) {
            return Some(entries[i].1.clone());
        }
        proof {
            assert(entries@.skip(i as int).drop_first() =~= entries@.skip(i as int + 1));
        }
        i = i + 1;
    }
    None
}

fn lookup_version<'a>(entries: &'a Vec<(String, NPMPackageVersion)>, key: &str) -> (r: Option<
    &'a NPMPackageVersion,
>)
    ensures
        r matches Some(p) ==> assoc_lookup(entries@, key@) == Some(*p),
        r is None ==> assoc_lookup(entries@, key@) is None,
{
    let mut i: usize = 0;
    proof {
        assert(entries@.skip(0) =~= entries@);
    }
    while i < entries.len()
        invariant
            i <= entries@.len(),
            assoc_lookup(entries@, key@) == assoc_lookup(entries@.skip(i as int), key@),
        decreases entries@.len() - i,
    {
        proof {
            assert(entries@.skip(i as int).first() == entries@[i as int]);
        }
        if crate::git::str_eq(entries[i].0.as_str(), key) {
            return Some(&entries[i].1);
        }
        proof {
            assert(entries@.skip(i as int).drop_first() =~= entries@.skip(i as int + 1));
        }
        i = i + 1;
    }
    None
}

/// The message reported when the registry metadata names no latest version.
pub open spec fn no_latest_message() -> Seq<char> {
    "Couldn't find latest version of NodeCG (This should never happen!)"@
}

/// The message reported when the latest version is not among the published
/// versions of the metadata.
pub open spec fn missing_version_message(v: Seq<char>) -> Seq<char> {
    "Latest NodeCG version ("@ + v + ") was not found in npm metadata"@
}

/// Resolves which version to install from registry metadata: the version the
/// `latest` distribution tag names, and the tarball it is published under.
/// Metadata that names no latest version, or names one it does not publish,
/// is reported as malformed with a message saying which.
pub fn latest_tarball(meta: &NPMPackageMetadata) -> (r: Result<(String, String), String>)
    ensures
        assoc_lookup(meta.dist_tags@, "latest"@) is None ==> (r matches Err(m) && m@
            == no_latest_message()),
        assoc_lookup(meta.dist_tags@, "latest"@) matches Some(v) ==> match assoc_lookup(
            meta.versions@,
            v@,
        ) {
            None => r matches Err(m) && m@ == missing_version_message(v@),
            Some(pkg) => r matches Ok(p) && p.0 == v && p.1@ == pkg.dist.tarball@,
        },
{
    let latest = lookup_dist_tag(&meta.dist_tags, "latest");
    match latest {
        None => Err("Couldn't find latest version of NodeCG (This should never happen!)".to_owned(
        )),
        Some(v) => {
            match lookup_version(&meta.versions, v.as_str()) {
                None => {
                    let m = "Latest NodeCG version (".to_owned().concat(v.as_str()).concat(
                        ") was not found in npm metadata",
                    );
                    Err(m)
                },
                Some(pkg) => {
                    let url = pkg.dist.tarball.clone();
                    Ok((v, url))
                },
            }
        },
    }
}

} // verus!
