use crate::text::{same_text, texts};
use vstd::prelude::*;

verus! {

/// The release tag of a runtime version: `v` and the version.
pub open spec fn release_tag(version: Seq<char>) -> Seq<char> {
    "v"@ + version
}

/// The name shared by a runtime's archive, its unpacked directory and the
/// directory that the archive holds.
pub open spec fn artifact_stem(version: Seq<char>, sdk: bool) -> Seq<char> {
    (if sdk {
        "nwjs-sdk-"@
    } else {
        "nwjs-"@
    }) + release_tag(version) + "-linux-x64"@
}

/// The file name of a runtime's archive in the download directory.
pub open spec fn archive_name(version: Seq<char>, sdk: bool) -> Seq<char> {
    artifact_stem(version, sdk) + ".tar.gz"@
}

/// Where a runtime's archive is published.
pub open spec fn download_url(version: Seq<char>, sdk: bool) -> Seq<char> {
    "https://dl.nwjs.io/"@ + release_tag(version) + "/"@ + archive_name(version, sdk)
}

/// The unpacked runtime tree to overlay, relative to the cache directory.
pub open spec fn overlay_source(version: Seq<char>, sdk: bool) -> Seq<char> {
    artifact_stem(version, sdk) + "/"@ + artifact_stem(version, sdk)
}

/// An archive has to be fetched where none of its name is in the cache.
pub open spec fn needs_download(archives: Set<Seq<char>>, version: Seq<char>, sdk: bool) -> bool {
    !archives.contains(archive_name(version, sdk))
}

/// An archive has to be unpacked where no non-empty directory of its name is
/// in the cache.
pub open spec fn needs_extraction(unpacked: Set<Seq<char>>, version: Seq<char>, sdk: bool) -> bool {
    !unpacked.contains(artifact_stem(version, sdk))
}

/// The name of the runtime's archive.
pub fn archive_name_of(version: &str, sdk: bool) -> (r: String)
    ensures
        r@ == archive_name(version@, sdk),
{
    let mut r = artifact_stem_of(version, sdk);
    r.append(".tar.gz");
    r
}

/// The name of the runtime's unpacked directory.
pub fn artifact_stem_of(version: &str, sdk: bool) -> (r: String)
    ensures
        r@ == artifact_stem(version@, sdk),
{
    let mut r = if sdk {
        String::from_str("nwjs-sdk-v")
    } else {
        String::from_str("nwjs-v")
    };
    r.append(version);
    r.append("-linux-x64");
    proof {
        reveal_strlit("nwjs-sdk-v");
        reveal_strlit("nwjs-sdk-");
        reveal_strlit("nwjs-v");
        reveal_strlit("nwjs-");
        reveal_strlit("v");
        assert(r@ =~= artifact_stem(version@, sdk));
    }
    r
}

/// The address of the runtime's archive.
pub fn download_url_of(version: &str, sdk: bool) -> (r: String)
    ensures
        r@ == download_url(version@, sdk),
{
    let mut r = String::from_str("https://dl.nwjs.io/v");
    r.append(version);
    r.append("/");
    let name = archive_name_of(version, sdk);
    r.append(name.as_str());
    proof {
        reveal_strlit("https://dl.nwjs.io/v");
        reveal_strlit("https://dl.nwjs.io/");
        reveal_strlit("v");
        assert(r@ =~= download_url(version@, sdk));
    }
    r
}

/// The unpacked tree to overlay, relative to the cache directory.
pub fn overlay_source_of(version: &str, sdk: bool) -> (r: String)
    ensures
        r@ == overlay_source(version@, sdk),
{
    let mut r = artifact_stem_of(version, sdk);
    let stem = artifact_stem_of(version, sdk);
    r.append("/");
    r.append(stem.as_str());
    proof {
        assert(r@ =~= overlay_source(version@, sdk));
    }
    r
}

/// Whether `names` holds `name`.
fn holds_name(names: &Vec<String>, name: &str) -> (r: bool)
    ensures
        r == texts(names@).contains(name@),
{
    let mut i: usize = 0;
    while i < names.len()
        invariant
            i <= names@.len(),
            forall|k: int| 0 <= k < i ==> names@[k]@ != name@,
        decreases names@.len() - i,
    {
        if same_text(names[i].as_str(), name) {
            proof {
                assert(texts(names@)[i as int] == name@);
            }
            return true;
        }
        i = i + 1;
    }
    proof {
        if texts(names@).contains(name@) {
            let k = choose|k: int| 0 <= k < texts(names@).len() && texts(names@)[k] == name@;
            assert(names@[k]@ == name@);
        }
    }
    false
}

/// What acquiring a runtime takes, decided from what the cache holds.
pub struct AcquirePlan {
    /// The address to fetch the archive from, where it is not cached.
    pub download: Option<String>,
    /// The archive's file name in the download directory.
    pub archive: String,
    /// Whether the archive is to be unpacked.
    pub extract: bool,
    /// The directory to unpack into, relative to the cache directory.
    pub unpack_dir: String,
    /// The tree to overlay onto the application, relative to the cache directory.
    pub overlay_source: String,
}

/// `plan` acquires the runtime of `version` and variant `sdk` from cache
/// `before`, which becomes `after`.
pub open spec fn acquires(
    before: RuntimeCache,
    after: RuntimeCache,
    plan: AcquirePlan,
    version: Seq<char>,
    sdk: bool,
) -> bool {
    &&& plan.archive@ == archive_name(version, sdk)
    &&& plan.unpack_dir@ == artifact_stem(version, sdk)
    &&& plan.overlay_source@ == overlay_source(version, sdk)
    &&& (plan.download is Some) == needs_download(before.archive_set(), version, sdk)
    &&& plan.download is Some ==> plan.download->Some_0@ == download_url(version, sdk)
    &&& plan.extract == needs_extraction(before.unpacked_set(), version, sdk)
    &&& after.archive_set() == before.archive_set().insert(archive_name(version, sdk))
    &&& after.unpacked_set() == before.unpacked_set().insert(artifact_stem(version, sdk))
}

/// The runtimes present in the cache directory: the archives downloaded and
/// the directories unpacked (present and non-empty). Presence is all that is
/// known: contents are not checked.
pub struct RuntimeCache {
    pub archives: Vec<String>,
    pub unpacked: Vec<String>,
}

impl RuntimeCache {
    /// The names of the archives present.
    pub open spec fn archive_set(&self) -> Set<Seq<char>> {
        texts(self.archives@).to_set()
    }

    /// The names of the unpacked directories present.
    pub open spec fn unpacked_set(&self) -> Set<Seq<char>> {
        texts(self.unpacked@).to_set()
    }

    /// A cache holding the given archives and unpacked directories.
    pub fn new(archives: Vec<String>, unpacked: Vec<String>) -> (r: Self)
        ensures
            r.archives@ == archives@,
            r.unpacked@ == unpacked@,
    {
        RuntimeCache { archives, unpacked }
    }

    /// Decides how to acquire the runtime of `version` and variant `sdk`:
    /// download only where its archive is absent, unpack only where its
    /// directory is absent. Afterwards the cache holds both.
    pub fn acquire(&mut self, version: &str, sdk: bool) -> (r: AcquirePlan)
        ensures
            acquires(*old(self), *final(self), r, version@, sdk),
    {
        let archive = archive_name_of(version, sdk);
        let unpack_dir = artifact_stem_of(version, sdk);
        let ghost a0 = texts(self.archives@);
        let ghost u0 = texts(self.unpacked@);
        let download = if holds_name(&self.archives, archive.as_str()) {
            proof {
                assert(a0.to_set() =~= a0.to_set().insert(archive@));
            }
            None
        } else {
            self.archives.push(archive.clone());
            proof {
                assert(texts(self.archives@) =~= a0 + seq![archive@]);
                Seq::lemma_to_set_insert_commutes(a0, archive@);
            }
            Some(download_url_of(version, sdk))
        };
        let extract = if holds_name(&self.unpacked, unpack_dir.as_str()) {
            proof {
                assert(u0.to_set() =~= u0.to_set().insert(unpack_dir@));
            }
            false
        } else {
            self.unpacked.push(unpack_dir.clone());
            proof {
                assert(texts(self.unpacked@) =~= u0 + seq![unpack_dir@]);
                Seq::lemma_to_set_insert_commutes(u0, unpack_dir@);
            }
            true
        };
        let overlay_source = overlay_source_of(version, sdk);
        AcquirePlan { download, archive, extract, unpack_dir, overlay_source }
    }
}

/// Acquiring the same runtime twice downloads and unpacks it at most once:
/// whatever the cache held, the second acquisition is a pure cache hit, and
/// of the two exactly one downloads where the archive was absent at first,
/// none where it was present.
pub proof fn lemma_acquire_twice_downloads_once(
    before: RuntimeCache,
    between: RuntimeCache,
    after: RuntimeCache,
    first: AcquirePlan,
    second: AcquirePlan,
    version: Seq<char>,
    sdk: bool,
)
    requires
        acquires(before, between, first, version, sdk),
        acquires(between, after, second, version, sdk),
    ensures
        second.download is None,
        !second.extract,
        (if first.download is Some {
            1int
        } else {
            0int
        }) + (if second.download is Some {
            1int
        } else {
            0int
        }) == (if before.archive_set().contains(archive_name(version, sdk)) {
            0int
        } else {
            1int
        }),
{
}

} // verus!
